//! What the window says about a scan of the music folder, and what it does
//! with the reports the scan sends while it runs.

use vstd::prelude::*;
use crate::paths::{file_name, shown_name_of};
use crate::status::{capitalized, capitalized_of, counted, folder_count};
use crate::text::{decimal, decimal_text, joined};

verus! {

/// What a scan did, counted.
#[derive(Debug, Clone, Copy, PartialEq, Eq, Structural)]
pub struct ScanSummary {
    /// Files added to the library.
    pub added: usize,
    /// Files the library already had under another path.
    pub moved: usize,
    /// Files the library already had as they are.
    pub unchanged: usize,
    /// Files whose record the scan completed.
    pub completed: usize,
    /// Files with the same bytes as another file.
    pub duplicates: usize,
    /// Files the scan could not deal with.
    pub failed: usize,
    /// Folders the scan could not read.
    pub unreadable: usize,
    /// Whether the scan was stopped before the end.
    pub stopped: bool,
}

/// `n` written in decimal, followed by `words`.
pub open spec fn number_then(n: nat, words: Seq<char>) -> Seq<char> {
    decimal(n) + words
}

/// What a scan of `folder` did, in one sentence for the status line.
pub open spec fn scan_summary_of(folder: Seq<char>, s: ScanSummary) -> Seq<char> {
    "The scan of "@ + folder + (if s.stopped {
        " stopped: "@
    } else {
        " finished: "@
    }) + number_then(s.added as nat, " added, "@) + number_then(s.moved as nat, " moved, "@)
        + number_then(s.unchanged as nat, " unchanged, "@) + number_then(
        s.completed as nat,
        " completed, "@,
    ) + number_then(s.duplicates as nat, " duplicates, "@) + number_then(
        s.failed as nat,
        " failed"@,
    ) + (if s.unreadable > 0 {
        ", and "@ + counted(s.unreadable as nat, "folder"@) + " that could not be read"@
    } else {
        Seq::empty()
    }) + "."@
}

fn then_number(said: String, n: usize, words: &str) -> (r: String)
    ensures
        r@ == said@ + number_then(n as nat, words@),
{
    let number = decimal_text(n as u64);
    let a = joined(said.as_str(), number.as_str());
    let r = joined(a.as_str(), words);
    assert(r@ =~= said@ + number_then(n as nat, words@));
    r
}

/// What a scan of `folder` did, in one sentence for the status line: the
/// counts of every outcome, and whether the scan ran to the end or was
/// stopped. Folders the scan could not read are counted at the end, when it
/// met any, since the tracks in such a folder are missing from the library
/// and nothing else says so.
pub fn scan_summary(folder: &str, summary: &ScanSummary) -> (r: String)
    ensures
        r@ == scan_summary_of(folder@, *summary),
{
    let ending = if summary.stopped { " stopped: " } else { " finished: " };
    let a = joined("The scan of ", folder);
    let b = joined(a.as_str(), ending);
    let c = then_number(b, summary.added, " added, ");
    let d = then_number(c, summary.moved, " moved, ");
    let e = then_number(d, summary.unchanged, " unchanged, ");
    let f = then_number(e, summary.completed, " completed, ");
    let g = then_number(f, summary.duplicates, " duplicates, ");
    let h = then_number(g, summary.failed, " failed");
    let i = if summary.unreadable > 0 {
        let folders = folder_count(summary.unreadable);
        let x = joined(h.as_str(), ", and ");
        let y = joined(x.as_str(), folders.as_str());
        joined(y.as_str(), " that could not be read")
    } else {
        h
    };
    let r = joined(i.as_str(), ".");
    assert(r@ =~= scan_summary_of(folder@, *summary));
    r
}

/// What lies at the path the music folder setting names, as the file system
/// answered.
pub enum FolderAt {
    /// Nothing is there.
    Nothing,
    /// Something other than a folder is there.
    NotAFolder,
    /// A folder is there: the path with its links resolved and made
    /// absolute, or the reason the operating system could not resolve it.
    Folder(Result<String, String>),
}

/// The music folder as a scan reads it, or the sentence for the status line
/// that says why it cannot be scanned.
pub open spec fn folder_to_scan_of(named: Seq<char>, found: FolderAt) -> Result<Seq<char>, Seq<char>> {
    match found {
        FolderAt::Nothing => Err("There is no folder at "@ + named + " to scan."@),
        FolderAt::NotAFolder => Err(named + " is not a folder."@),
        FolderAt::Folder(Ok(resolved)) => Ok(resolved@),
        FolderAt::Folder(Err(problem)) => Err(
            "The folder "@ + named + " could not be read: "@ + problem@ + "."@,
        ),
    }
}

/// The music folder `named` as a scan reads it, given what the file system
/// found there: the folder with the links along it resolved and made
/// absolute, which is what a scan of the library stores. A path with nothing
/// at it, a path that names something other than a folder, and a folder the
/// operating system cannot resolve each come back as a sentence for the
/// status line, which the caller puts the remedy after.
pub fn folder_to_scan(named: &str, found: FolderAt) -> (r: Result<String, String>)
    ensures
        match (r, folder_to_scan_of(named@, found)) {
            (Ok(p), Ok(q)) => p@ == q,
            (Err(m), Err(n)) => m@ == n,
            _ => false,
        },
{
    match found {
        FolderAt::Nothing => {
            let a = joined("There is no folder at ", named);
            Err(joined(a.as_str(), " to scan."))
        },
        FolderAt::NotAFolder => Err(joined(named, " is not a folder.")),
        FolderAt::Folder(Ok(resolved)) => Ok(resolved),
        FolderAt::Folder(Err(problem)) => {
            let a = joined("The folder ", named);
            let b = joined(a.as_str(), " could not be read: ");
            let c = joined(b.as_str(), problem.as_str());
            Err(joined(c.as_str(), "."))
        },
    }
}

/// The remedy the status line gives after a music folder that cannot be
/// scanned.
pub const CHOOSE_A_FOLDER: &'static str = " Choose a music folder in the settings dialog, then choose Library > Scan music folder.";

/// What the status line says when the music folder cannot be scanned for
/// `trouble`: that the library at `library` is empty, when the window has
/// just made it, then the trouble and the remedy.
pub open spec fn scan_trouble_of(library: Seq<char>, made: bool, trouble: Seq<char>) -> Seq<char> {
    (if made {
        "The library at "@ + library + " is empty. "@
    } else {
        Seq::empty()
    }) + trouble + CHOOSE_A_FOLDER@
}

/// What the status line says when the music folder cannot be scanned, as
/// [`scan_trouble_of`] says.
pub fn scan_trouble(library: &str, made: bool, trouble: &str) -> (r: String)
    ensures
        r@ == scan_trouble_of(library@, made, trouble@),
{
    let start = if made {
        let a = joined("The library at ", library);
        joined(a.as_str(), " is empty. ")
    } else {
        String::new()
    };
    let b = joined(start.as_str(), trouble);
    let r = joined(b.as_str(), CHOOSE_A_FOLDER);
    assert(r@ =~= scan_trouble_of(library@, made, trouble@));
    r
}

/// What the status line says while `folder` is scanned into `library`.
pub fn scanning_note(folder: &str, library: &str) -> (r: String)
    ensures
        r@ == "Scanning "@ + folder@ + " into "@ + library@,
{
    let a = joined("Scanning ", folder);
    let b = joined(a.as_str(), " into ");
    let r = joined(b.as_str(), library);
    assert(r@ =~= "Scanning "@ + folder@ + " into "@ + library@);
    r
}

/// What a scan did with one file.
#[derive(Debug, Clone, Copy, PartialEq, Eq, Structural)]
pub enum Change {
    /// The file was added to the library.
    Added,
    /// The library had the file under another path, which now points here.
    Moved,
    /// The library had the file as it is.
    Unchanged,
    /// The file's record was completed.
    Completed,
    /// The file has the same bytes as another file.
    Duplicate,
    /// The file could not be dealt with.
    Failed,
}

/// Whether a file dealt with this way changes what the library panel would
/// show.
pub open spec fn changes_the_rows(change: Change) -> bool {
    change == Change::Added || change == Change::Moved || change == Change::Completed
}

/// One thing the scan has to report.
pub enum Report {
    /// One file was dealt with.
    File {
        /// How many files have been dealt with, including this one.
        done: usize,
        /// How many files the scan found under the folder.
        total: usize,
        /// The file.
        path: String,
        /// What was done with it.
        change: Change,
    },
    /// The scan is over: what it did, or why it could not run at all.
    Finished(Result<ScanSummary, String>),
}

/// What the status line says about one file the scan dealt with.
pub open spec fn progress_of(done: nat, total: nat, path: Seq<char>) -> Seq<char> {
    "Scanning "@ + decimal(done) + " of "@ + decimal(total) + ": "@ + shown_name_of(path)
}

/// What the window does with the reports of a scan taken on one repaint.
pub struct Collected {
    /// What the status line says now, when a report has said anything.
    pub message: Option<String>,
    /// Whether the library is to be read again.
    pub refresh_due: bool,
    /// Whether the scan is over, so that the window drops it and another can
    /// be started.
    pub over: bool,
}

/// The message, the refresh due, and whether the scan has finished, after
/// the reports `reports` on top of `start`, taken in order: each report's
/// words replace the last ones.
pub open spec fn after_reports(
    reports: Seq<Report>,
    folder: Seq<char>,
    start: (Option<Seq<char>>, bool, bool),
) -> (Option<Seq<char>>, bool, bool)
    decreases reports.len(),
{
    if reports.len() == 0 {
        start
    } else {
        let before = after_reports(reports.drop_last(), folder, start);
        match reports.last() {
            Report::File { done, total, path, change } => (
                Some(progress_of(done as nat, total as nat, path@)),
                before.1 || changes_the_rows(change),
                before.2,
            ),
            Report::Finished(Ok(summary)) => (
                Some(scan_summary_of(folder, summary)),
                true,
                true,
            ),
            Report::Finished(Err(problem)) => (Some(capitalized_of(problem@)), before.1, true),
        }
    }
}

/// What the status line says when the scan's thread ended without its last
/// report.
pub open spec fn ended_silently_of(folder: Seq<char>) -> Seq<char> {
    "The scan of "@ + folder
        + " ended without reporting what it did. The library keeps every file the scan had finished."@
}

/// What the window makes of the reports the scan of `folder` sent since the
/// last repaint, in the order they were sent, given whether a refresh was
/// already due and whether the scan's thread has ended.
///
/// A file added, moved, or completed makes a refresh due, since those change
/// what the panel would show; the summary at the end makes one due whatever
/// it says. A thread that ended without its last report has stopped in a
/// way it has no words for, so the window says that much, and reads the
/// library again for whatever the scan did finish. The scan is over once it
/// has reported its end or its thread has ended.
pub fn collect_reports(
    reports: Vec<Report>,
    folder: &str,
    refresh_due: bool,
    thread_ended: bool,
) -> (r: Collected)
    ensures
        ({
            let (message, due, finished) = after_reports(reports@, folder@, (None, refresh_due, false));
            &&& (thread_ended && !finished) ==> (r.message matches Some(m) && m@ == ended_silently_of(folder@))
            &&& !(thread_ended && !finished) ==> match (r.message, message) {
                (Some(m), Some(n)) => m@ == n,
                (None, None) => true,
                _ => false,
            }
            &&& r.refresh_due == (due || (thread_ended && !finished))
            &&& r.over == (finished || thread_ended)
        }),
{
    let ghost all = reports@;
    let mut message: Option<String> = None;
    let mut due = refresh_due;
    let mut finished = false;
    let mut i: usize = 0;
    let n = reports.len();
    let mut rest = reports;
    while i < n
        invariant
            n == all.len(),
            i <= n,
            rest@ == all.skip(i as int),
            ({
                let (m, d, f) = after_reports(all.take(i as int), folder@, (None, refresh_due, false));
                &&& match (message, m) {
                    (Some(x), Some(y)) => x@ == y,
                    (None, None) => true,
                    _ => false,
                }
                &&& due == d
                &&& finished == f
            }),
        decreases n - i,
    {
        let report = rest.remove(0);
        proof {
            assert(all.take(i + 1).drop_last() =~= all.take(i as int));
            assert(all.take(i + 1).last() == report);
        }
        match &report {
            Report::File { done, total, path, change } => {
                let name = file_name(path.as_str());
                let a = joined("Scanning ", decimal_text(*done as u64).as_str());
                let b = joined(a.as_str(), " of ");
                let c = joined(b.as_str(), decimal_text(*total as u64).as_str());
                let d = joined(c.as_str(), ": ");
                let said = joined(d.as_str(), name.as_str());
                assert(said@ =~= progress_of(*done as nat, *total as nat, path@));
                message = Some(said);
                due = due || (*change == Change::Added || *change == Change::Moved || *change
                    == Change::Completed);
            },
            Report::Finished(Ok(summary)) => {
                message = Some(scan_summary(folder, summary));
                due = true;
                finished = true;
            },
            Report::Finished(Err(problem)) => {
                message = Some(capitalized(problem.clone()));
                finished = true;
            },
        }
        proof {
            assert(rest@ =~= all.skip(i + 1));
        }
        i = i + 1;
    }
    assert(all.take(n as int) =~= all);
    if thread_ended && !finished {
        let a = joined("The scan of ", folder);
        let said = joined(
            a.as_str(),
            " ended without reporting what it did. The library keeps every file the scan had finished.",
        );
        assert(said@ =~= ended_silently_of(folder@));
        message = Some(said);
        due = true;
    }
    Collected { message, refresh_due: due, over: finished || thread_ended }
}

}
