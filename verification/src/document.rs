//! Which file the mix under the window is, whether it has changes that
//! were never saved, and what the window asks before it lets those changes
//! go.
//!
//! The window opens with an untitled empty mix when it is given no file,
//! and **File** offers **New**, **Open**, **Save**, **Save as**, and
//! **Quit**. Every one of those that would put another document under the
//! window, or close it, first asks what should become of unsaved changes,
//! because never losing work outranks every feature. This type is those
//! rules: the window paints the title it gives and the question it asks, and
//! reports the answers.

use vstd::prelude::*;
use crate::paths::{file_name, shown_name_of};
use crate::text::{joined, owned};

verus! {

/// The name the window shows for a mix that has never been saved.
pub const UNTITLED: &'static str = "Untitled";

/// The words that follow the name in the window's title while the mix has
/// changes that were never saved.
pub const EDITED: &'static str = " (edited)";

/// What the window's title begins with, before the mix's name.
pub const TITLE_START: &'static str = "Dermixen \u{b7} ";

/// What the person asked the window to do, which unsaved changes may stand
/// in the way of.
#[derive(Debug, PartialEq, Eq)]
pub enum Intent {
    /// Put an untitled empty mix under the window.
    New,
    /// Put the mix in this file under the window.
    Open(String),
    /// Close the window.
    Quit,
}

/// An intent as the contracts speak of it.
pub enum IntentView {
    New,
    Open(Seq<char>),
    Quit,
}

impl View for Intent {
    type V = IntentView;

    open spec fn view(&self) -> IntentView {
        match self {
            Intent::New => IntentView::New,
            Intent::Open(path) => IntentView::Open(path@),
            Intent::Quit => IntentView::Quit,
        }
    }
}

impl Clone for Intent {
    fn clone(&self) -> (r: Intent)
        ensures
            r@ == self@,
    {
        match self {
            Intent::New => Intent::New,
            Intent::Open(path) => Intent::Open(path.clone()),
            Intent::Quit => Intent::Quit,
        }
    }
}

/// What the window does with an intent.
#[derive(Debug, PartialEq, Eq)]
pub enum Step {
    /// Nothing stands in the way: act on the intent.
    Proceed(Intent),
    /// The mix has unsaved changes, so the window asks what should become
    /// of them, and the intent waits for the answer.
    Ask(Intent),
}

/// A step as the contracts speak of it.
pub enum StepView {
    Proceed(IntentView),
    Ask(IntentView),
}

impl View for Step {
    type V = StepView;

    open spec fn view(&self) -> StepView {
        match self {
            Step::Proceed(intent) => StepView::Proceed(intent@),
            Step::Ask(intent) => StepView::Ask(intent@),
        }
    }
}

/// The three answers to "Save changes to this mix?".
#[derive(Debug, Clone, Copy, PartialEq, Eq, Structural)]
pub enum Answer {
    /// Save, then act on the intent. A save that fails leaves the
    /// question standing.
    Save,
    /// Let the changes go and act on the intent. The window's button for
    /// this answer reads **Don't save**.
    Discard,
    /// Do nothing: the mix stays as it is, with its changes.
    Cancel,
}

/// What the window does after an answer.
#[derive(Debug, PartialEq, Eq)]
pub enum Next {
    /// Save the mix, and act on the intent once the save has succeeded.
    /// The window asks for a file first when the mix has none.
    SaveThen(Intent),
    /// Act on the intent now.
    Proceed(Intent),
    /// Nothing: the question is withdrawn and the mix keeps its changes.
    Stay,
}

/// What follows an answer, as the contracts speak of it.
pub enum NextView {
    SaveThen(IntentView),
    Proceed(IntentView),
    Stay,
}

impl View for Next {
    type V = NextView;

    open spec fn view(&self) -> NextView {
        match self {
            Next::SaveThen(intent) => NextView::SaveThen(intent@),
            Next::Proceed(intent) => NextView::Proceed(intent@),
            Next::Stay => NextView::Stay,
        }
    }
}

/// How far the intent waiting on the question has got.
#[derive(Debug, Clone, Copy, PartialEq, Eq, Structural)]
pub enum Waiting {
    /// The window is asking, and no answer has come yet.
    Question,
    /// The answer was [`Answer::Save`], and the save has not succeeded yet.
    Save,
    /// The save succeeded, so the intent is there for the window to take.
    Ready,
}

/// The file the mix under the window came from, whether the mix has
/// changes that were never saved, and the intent waiting on the answer to
/// the question about them.
#[derive(Debug, PartialEq, Eq)]
pub struct Document {
    path: Option<String>,
    unsaved: bool,
    pending: Option<(Intent, Waiting)>,
}

/// A document as the contracts speak of it.
pub struct DocumentView {
    /// The mix's file, if it has one.
    pub path: Option<Seq<char>>,
    /// Whether the mix has changes that were never saved.
    pub unsaved: bool,
    /// The intent waiting on the question, and how far it has got.
    pub pending: Option<(IntentView, Waiting)>,
}

impl View for Document {
    type V = DocumentView;

    closed spec fn view(&self) -> DocumentView {
        DocumentView {
            path: match self.path {
                Some(path) => Some(path@),
                None => None,
            },
            unsaved: self.unsaved,
            pending: match self.pending {
                Some((intent, waiting)) => Some((intent@, waiting)),
                None => None,
            },
        }
    }
}

/// The name the window gives the mix of `d`: its file's name, the whole
/// path where the path ends in no file name, and [`UNTITLED`] with no file.
pub open spec fn name_of(d: DocumentView) -> Seq<char> {
    match d.path {
        Some(path) => shown_name_of(path),
        None => UNTITLED@,
    }
}

/// The window's title for `d`.
pub open spec fn title_of(d: DocumentView) -> Seq<char> {
    TITLE_START@ + name_of(d) + if d.unsaved {
        EDITED@
    } else {
        Seq::empty()
    }
}

/// What a request for `intent` is answered with.
pub open spec fn step_for(d: DocumentView, intent: IntentView) -> StepView {
    if !d.unsaved {
        StepView::Proceed(intent)
    } else {
        StepView::Ask(intent)
    }
}

/// The document after a request for `intent`.
pub open spec fn after_request(d: DocumentView, intent: IntentView) -> DocumentView {
    if !d.unsaved {
        d
    } else {
        DocumentView { pending: Some((intent, Waiting::Question)), ..d }
    }
}

/// What the window does after `answer`.
pub open spec fn next_for(d: DocumentView, answer: Answer) -> NextView {
    match d.pending {
        None => NextView::Stay,
        Some((intent, _)) => match answer {
            Answer::Save => NextView::SaveThen(intent),
            Answer::Discard => NextView::Proceed(intent),
            Answer::Cancel => NextView::Stay,
        },
    }
}

/// The document after `answer`.
pub open spec fn after_answer(d: DocumentView, answer: Answer) -> DocumentView {
    match d.pending {
        None => d,
        Some((intent, _)) => match answer {
            Answer::Save => DocumentView { pending: Some((intent, Waiting::Save)), ..d },
            _ => DocumentView { pending: None, ..d },
        },
    }
}

/// The document after a save succeeded: an intent waiting for that save
/// moves on to be taken, and any other pending intent stays where it is.
pub open spec fn after_save_succeeded(d: DocumentView) -> DocumentView {
    match d.pending {
        Some((intent, Waiting::Save)) => DocumentView {
            pending: Some((intent, Waiting::Ready)),
            ..d
        },
        _ => d,
    }
}

/// The document after the mix was written to its own file.
pub open spec fn after_saved(d: DocumentView) -> DocumentView {
    after_save_succeeded(DocumentView { unsaved: false, ..d })
}

/// The document after the mix was written to `path`.
pub open spec fn after_saved_as(d: DocumentView, path: Seq<char>) -> DocumentView {
    after_saved(DocumentView { path: Some(path), ..d })
}

/// The intent a take hands back: the one whose save has succeeded.
pub open spec fn taken(d: DocumentView) -> Option<IntentView> {
    match d.pending {
        Some((intent, Waiting::Ready)) => Some(intent),
        _ => None,
    }
}

/// The document after a take.
pub open spec fn after_take(d: DocumentView) -> DocumentView {
    match d.pending {
        Some((_, Waiting::Ready)) => DocumentView { pending: None, ..d },
        _ => d,
    }
}

/// The view of an intent that may be absent.
pub open spec fn opt_intent(i: Option<Intent>) -> Option<IntentView> {
    match i {
        Some(i) => Some(i@),
        None => None,
    }
}

impl Document {
    /// A mix that has never been saved and has no file.
    pub fn untitled() -> (d: Document)
        ensures
            d@.path is None,
            !d@.unsaved,
            d@.pending is None,
    {
        Document { path: None, unsaved: false, pending: None }
    }

    /// The mix in the file at `path`, as it was read, with nothing to save.
    pub fn at(path: String) -> (d: Document)
        ensures
            d@.path == Some(path@),
            !d@.unsaved,
            d@.pending is None,
    {
        Document { path: Some(path), unsaved: false, pending: None }
    }

    /// The file the mix came from, or `None` for an untitled mix.
    pub fn path(&self) -> (r: Option<&str>)
        ensures
            match r {
                Some(p) => self@.path == Some(p@),
                None => self@.path is None,
            },
    {
        match &self.path {
            Some(path) => Some(path.as_str()),
            None => None,
        }
    }

    /// The file's name, or [`UNTITLED`] for a mix with no file. A path that
    /// ends in no file name is named by the whole path, since a person needs
    /// to read which mix the window holds whatever the path looks like.
    pub fn name(&self) -> (r: String)
        ensures
            r@ == name_of(self@),
    {
        match &self.path {
            Some(path) => file_name(path.as_str()),
            None => owned(UNTITLED),
        }
    }

    /// The window's title: `Dermixen · ` and the name, then [`EDITED`]
    /// while the mix has changes that were never saved.
    pub fn title(&self) -> (r: String)
        ensures
            r@ == title_of(self@),
    {
        let name = self.name();
        let start = joined(TITLE_START, name.as_str());
        if self.unsaved {
            joined(start.as_str(), EDITED)
        } else {
            proof {
                assert(start@ + Seq::<char>::empty() =~= start@);
            }
            start
        }
    }

    /// Whether the mix has changes that were never saved.
    pub fn is_unsaved(&self) -> (r: bool)
        ensures
            r == self@.unsaved,
    {
        self.unsaved
    }

    /// Whether the window is asking what should become of unsaved changes.
    pub fn asking(&self) -> (r: bool)
        ensures
            r == self@.pending is Some,
    {
        self.pending.is_some()
    }

    /// The intent waiting on the answer, while the window is asking.
    pub fn pending(&self) -> (r: Option<&Intent>)
        ensures
            match r {
                Some(i) => self@.pending matches Some((p, _)) && p == i@,
                None => self@.pending is None,
            },
    {
        match &self.pending {
            Some((intent, _)) => Some(intent),
            None => None,
        }
    }

    /// An edit was committed, so the mix now has changes that were never
    /// saved.
    pub fn edited(&mut self)
        ensures
            final(self)@ == (DocumentView { unsaved: true, ..old(self)@ }),
    {
        self.unsaved = true;
    }

    /// The mix was written to its own file, so nothing is unsaved. This also
    /// moves an intent that was waiting for a save on to where
    /// [`take_pending`](Document::take_pending) hands it back.
    pub fn saved(&mut self)
        ensures
            final(self)@ == after_saved(old(self)@),
    {
        self.unsaved = false;
        self.save_succeeded();
    }

    /// The mix was written to `path`, which is its file from now on, and
    /// nothing is unsaved.
    pub fn saved_as(&mut self, path: String)
        ensures
            final(self)@ == after_saved_as(old(self)@, path@),
    {
        self.path = Some(path);
        self.saved();
    }

    /// Takes an intent: it proceeds at once when nothing is unsaved, and
    /// otherwise waits while the window asks. A request made while the
    /// window is already asking replaces the intent that was waiting, so
    /// the newest request is the one the answer applies to.
    pub fn request(&mut self, intent: Intent) -> (s: Step)
        ensures
            s@ == step_for(old(self)@, intent@),
            final(self)@ == after_request(old(self)@, intent@),
    {
        if !self.unsaved {
            return Step::Proceed(intent);
        }
        self.pending = Some((intent.clone(), Waiting::Question));
        Step::Ask(intent)
    }

    /// Takes the answer to the question and says what the window does now.
    /// After [`Next::Proceed`] and [`Next::Stay`] the window is no longer
    /// asking. After [`Next::SaveThen`] the intent goes on waiting until
    /// [`saved`](Document::saved) or [`saved_as`](Document::saved_as) is
    /// called. An answer while nothing is pending is [`Next::Stay`].
    pub fn answered(&mut self, answer: Answer) -> (n: Next)
        ensures
            n@ == next_for(old(self)@, answer),
            final(self)@ == after_answer(old(self)@, answer),
    {
        let intent = match &self.pending {
            Some((intent, _)) => intent.clone(),
            None => {
                return Next::Stay;
            },
        };
        match answer {
            Answer::Save => {
                let kept = intent.clone();
                self.pending = Some((kept, Waiting::Save));
                Next::SaveThen(intent)
            },
            Answer::Discard => {
                self.pending = None;
                Next::Proceed(intent)
            },
            Answer::Cancel => {
                self.pending = None;
                Next::Stay
            },
        }
    }

    /// The intent that was waiting for a save, once the save has succeeded:
    /// `Some` exactly once after a [`Next::SaveThen`] whose save was
    /// followed by [`saved`](Document::saved) or
    /// [`saved_as`](Document::saved_as), and `None` at every other time.
    pub fn take_pending(&mut self) -> (r: Option<Intent>)
        ensures
            opt_intent(r) == taken(old(self)@),
            final(self)@ == after_take(old(self)@),
    {
        let ready = match &self.pending {
            Some((_, Waiting::Ready)) => true,
            _ => false,
        };
        if !ready {
            return None;
        }
        match self.pending.take() {
            Some((intent, _)) => Some(intent),
            None => None,
        }
    }

    /// Moves an intent that was waiting for a save on to where
    /// [`take_pending`](Document::take_pending) hands it back. A save the
    /// question did not ask for leaves an intent waiting on the question
    /// where it is.
    fn save_succeeded(&mut self)
        ensures
            final(self)@ == after_save_succeeded(old(self)@),
    {
        let moves = match &self.pending {
            Some((_, Waiting::Save)) => true,
            _ => false,
        };
        if moves {
            if let Some((intent, _)) = self.pending.take() {
                self.pending = Some((intent, Waiting::Ready));
            }
        }
    }
}


/// The extension a mix document goes by.
pub const MIX_EXTENSION: &'static str = "dmx";

/// The name the save dialog offers to write the mix of `d` under.
pub open spec fn saving_name_of(d: DocumentView) -> Seq<char> {
    match d.path {
        Some(path) => shown_name_of(path),
        None => name_of(d) + seq!['.'] + MIX_EXTENSION@,
    }
}

/// The heading of the question about unsaved changes.
pub open spec fn question_heading_of(d: DocumentView) -> Seq<char> {
    "Save changes to "@ + name_of(d) + "?"@
}

/// The line under the heading of the question about unsaved changes.
pub open spec fn question_text_of(d: DocumentView) -> Seq<char> {
    match d.path {
        Some(path) => path + " has unsaved changes."@,
        None => "This mix has never been saved to a file."@,
    }
}

impl Document {
    /// The name the save dialog offers to write under: the mix's own file
    /// name, and otherwise the untitled name with the extension a mix
    /// document goes by.
    pub fn saving_name(&self) -> (r: String)
        ensures
            r@ == saving_name_of(self@),
    {
        match &self.path {
            Some(path) => file_name(path.as_str()),
            None => {
                let name = self.name();
                let dotted = joined(name.as_str(), ".");
                proof {
                    reveal_strlit(".");
                }
                joined(dotted.as_str(), MIX_EXTENSION)
            },
        }
    }

    /// The heading of the question the window asks about unsaved changes.
    pub fn question_heading(&self) -> (r: String)
        ensures
            r@ == question_heading_of(self@),
    {
        let name = self.name();
        let a = joined("Save changes to ", name.as_str());
        joined(a.as_str(), "?")
    }

    /// The line under the heading of the question: the file that has unsaved
    /// changes, or that the mix has never been saved.
    pub fn question_text(&self) -> (r: String)
        ensures
            r@ == question_text_of(self@),
    {
        match &self.path {
            Some(path) => joined(path.as_str(), " has unsaved changes."),
            None => owned("This mix has never been saved to a file."),
        }
    }
}

/// Never losing work: a request proceeds at once only while nothing is
/// unsaved, and while something is, the request waits on the question.
pub proof fn unsaved_changes_stop_every_request(d: DocumentView, intent: IntentView)
    ensures
        step_for(d, intent) is Proceed <==> !d.unsaved,
        d.unsaved ==> after_request(d, intent).pending == Some((intent, Waiting::Question)),
        after_request(d, intent).unsaved == d.unsaved,
        after_request(d, intent).path == d.path,
{
}

/// A request made while the window is already asking replaces the intent
/// that was waiting, so the newest request is the one the answer applies to.
pub proof fn the_newest_request_is_the_one_answered(
    d: DocumentView,
    first: IntentView,
    second: IntentView,
    answer: Answer,
)
    requires
        d.unsaved,
    ensures
        after_request(after_request(d, first), second).pending == Some(
            (second, Waiting::Question),
        ),
        next_for(after_request(after_request(d, first), second), answer) == next_for(
            after_request(d, second),
            answer,
        ),
{
}

/// Answering **Save** goes on to the intent only once the save has
/// succeeded: until then the question stands and nothing is handed back,
/// after the save the intent is handed back once, and the mix has nothing
/// unsaved.
pub proof fn a_save_answer_hands_the_intent_back_once(d: DocumentView, intent: IntentView)
    requires
        d.unsaved,
    ensures
        ({
            let asked = after_request(d, intent);
            let answered = after_answer(asked, Answer::Save);
            let saved = after_saved(answered);
            &&& next_for(asked, Answer::Save) == NextView::SaveThen(intent)
            &&& answered.pending is Some
            &&& taken(answered) is None
            &&& after_take(answered) == answered
            &&& taken(saved) == Some(intent)
            &&& !saved.unsaved
            &&& after_take(saved).pending is None
            &&& taken(after_take(saved)) is None
        }),
{
}

/// The same holds when the save is a **Save as** to a new file, which also
/// becomes the mix's file.
pub proof fn a_save_as_answer_hands_the_intent_back_once(
    d: DocumentView,
    intent: IntentView,
    path: Seq<char>,
)
    requires
        d.unsaved,
    ensures
        ({
            let answered = after_answer(after_request(d, intent), Answer::Save);
            let saved = after_saved_as(answered, path);
            &&& taken(saved) == Some(intent)
            &&& saved.path == Some(path)
            &&& !saved.unsaved
            &&& taken(after_take(saved)) is None
        }),
{
}

/// **Don't save** acts on the intent at once and withdraws the question;
/// **Cancel** withdraws the question, acts on nothing, and the mix keeps its
/// changes.
pub proof fn discard_proceeds_and_cancel_stays(d: DocumentView, intent: IntentView)
    requires
        d.unsaved,
    ensures
        next_for(after_request(d, intent), Answer::Discard) == NextView::Proceed(intent),
        after_answer(after_request(d, intent), Answer::Discard).pending is None,
        next_for(after_request(d, intent), Answer::Cancel) == NextView::Stay,
        after_answer(after_request(d, intent), Answer::Cancel).pending is None,
        after_answer(after_request(d, intent), Answer::Cancel).unsaved,
{
}

/// A save the question did not ask for leaves an intent waiting on the
/// question where it is, so no save acts on an intent the person has not
/// answered for; and nothing is handed back while the question stands.
pub proof fn a_save_nobody_asked_for_acts_on_nothing(d: DocumentView)
    requires
        d.pending matches Some((_, w)) && w == Waiting::Question,
    ensures
        after_saved(d).pending == d.pending,
        taken(after_saved(d)) is None,
        taken(d) is None,
{
}

/// An answer while nothing is pending changes nothing and is
/// [`Next::Stay`].
pub proof fn an_answer_to_no_question_changes_nothing(d: DocumentView, answer: Answer)
    requires
        d.pending is None,
    ensures
        next_for(d, answer) == NextView::Stay,
        after_answer(d, answer) == d,
{
}

/// The title says the mix is edited exactly while it has unsaved changes:
/// the two titles of one mix differ only by [`EDITED`] at the end.
pub proof fn the_title_shows_unsaved_changes(d: DocumentView)
    ensures
        title_of(DocumentView { unsaved: true, ..d }) == title_of(
            DocumentView { unsaved: false, ..d },
        ) + EDITED@,
{
    assert(title_of(DocumentView { unsaved: false, ..d }) =~= TITLE_START@ + name_of(d));
}

}
