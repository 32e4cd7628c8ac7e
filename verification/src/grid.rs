//! The parts of manual beat grid correction that are whole numbers and
//! bookkeeping: how far an arrow key moves the grid, and the record of the
//! adjustments made since the grid editor opened, which its undo and redo
//! walk back and forth. A grid is whatever the editor holds; this record
//! keeps grids and hands them back without looking inside them.

use vstd::prelude::*;
use crate::units::Samples;

verus! {

/// How far an arrow key moves the grid: one frame on its own, ten frames
/// with shift held, and a hundred frames with shift and the command or the
/// alt key held. `shift` says whether shift is held, and `command` whether
/// the command key (control, on Linux) or the alt key is. The command or
/// alt key without shift moves one frame, since the bigger steps are
/// reached through shift. The count is always positive: the caller
/// subtracts it for the left arrow.
pub fn arrow_step(shift: bool, command: bool) -> (r: Samples)
    ensures
        r.0 == (if shift && command {
            100i64
        } else if shift {
            10i64
        } else {
            1i64
        }),
        r.0 > 0,
{
    if shift && command {
        Samples(100)
    } else if shift {
        Samples(10)
    } else {
        Samples(1)
    }
}

/// The adjustments made to a grid since the editor opened: the grids that
/// stood before each adjustment still in effect, the most recent last, and
/// the grids that undoing took away, the most recently undone last.
pub struct Adjustments<G> {
    past: Vec<G>,
    future: Vec<G>,
}

/// What undoing does to the record `(past, future)` while the grid is
/// `current`: the last grid of the past comes back and `current` goes on
/// the future. A record with no past is left as it is.
pub open spec fn after_undo<G>(past: Seq<G>, future: Seq<G>, current: G) -> (Seq<G>, Seq<G>) {
    if past.len() == 0 {
        (past, future)
    } else {
        (past.drop_last(), future.push(current))
    }
}

/// What redoing does to the record `(past, future)` while the grid is
/// `current`: the last grid undone comes back and `current` goes on the
/// past. A record with no future is left as it is.
pub open spec fn after_redo<G>(past: Seq<G>, future: Seq<G>, current: G) -> (Seq<G>, Seq<G>) {
    if future.len() == 0 {
        (past, future)
    } else {
        (past.push(current), future.drop_last())
    }
}

/// What a gesture does to the record `(past, future)` when it began on the
/// grid `before`: a gesture that changed the grid keeps `before` as one
/// adjustment and drops everything that could have been redone, and one
/// that left the grid as it was keeps nothing.
pub open spec fn after_gesture<G>(past: Seq<G>, future: Seq<G>, before: G, changed: bool) -> (
    Seq<G>,
    Seq<G>,
) {
    if changed {
        (past.push(before), Seq::empty())
    } else {
        (past, future)
    }
}

impl<G> Adjustments<G> {
    /// The grids that stood before each adjustment still in effect, the most
    /// recent last.
    pub closed spec fn past(&self) -> Seq<G> {
        self.past@
    }

    /// The grids that undoing took away, the most recently undone last.
    pub closed spec fn future(&self) -> Seq<G> {
        self.future@
    }

    /// The record of an editor that has just opened: nothing to undo and
    /// nothing to redo.
    pub fn new() -> (r: Self)
        ensures
            r.past() == Seq::<G>::empty(),
            r.future() == Seq::<G>::empty(),
    {
        Adjustments { past: Vec::new(), future: Vec::new() }
    }

    /// Records a gesture that began on the grid `before`, where `changed`
    /// says whether the grid it ended on differs from `before`: a change is
    /// one adjustment for undo to take back, and drops every adjustment redo
    /// could have made again; no change is no adjustment.
    pub fn adjusted(&mut self, before: G, changed: bool)
        ensures
            (final(self).past(), final(self).future()) == after_gesture(
                old(self).past(),
                old(self).future(),
                before,
                changed,
            ),
    {
        if changed {
            self.past.push(before);
            self.future = Vec::new();
        }
    }

    /// Takes back the last adjustment while the grid is `current`: gives the
    /// grid to go back to and keeps `current` for redo, or gives nothing and
    /// changes nothing when no adjustment is left to take back.
    pub fn undo(&mut self, current: G) -> (r: Option<G>)
        ensures
            (final(self).past(), final(self).future()) == after_undo(
                old(self).past(),
                old(self).future(),
                current,
            ),
            match r {
                Some(g) => old(self).past().len() > 0 && g == old(self).past().last(),
                None => old(self).past().len() == 0,
            },
    {
        match self.past.pop() {
            Some(grid) => {
                self.future.push(current);
                Some(grid)
            },
            None => None,
        }
    }

    /// Makes the last adjustment undo took back again while the grid is
    /// `current`: gives the grid to go forward to and keeps `current` for
    /// undo, or gives nothing and changes nothing when there is none.
    pub fn redo(&mut self, current: G) -> (r: Option<G>)
        ensures
            (final(self).past(), final(self).future()) == after_redo(
                old(self).past(),
                old(self).future(),
                current,
            ),
            match r {
                Some(g) => old(self).future().len() > 0 && g == old(self).future().last(),
                None => old(self).future().len() == 0,
            },
    {
        match self.future.pop() {
            Some(grid) => {
                self.past.push(current);
                Some(grid)
            },
            None => None,
        }
    }

    /// Drops every adjustment, as when the grid is replaced from outside the
    /// editor and none of them describes the grid any more.
    pub fn forget(&mut self)
        ensures
            final(self).past() == Seq::<G>::empty(),
            final(self).future() == Seq::<G>::empty(),
    {
        self.past = Vec::new();
        self.future = Vec::new();
    }

    /// Whether undo would change the grid.
    pub fn can_undo(&self) -> (r: bool)
        ensures
            r == (self.past().len() > 0),
    {
        self.past.len() > 0
    }

    /// Whether redo would change the grid.
    pub fn can_redo(&self) -> (r: bool)
        ensures
            r == (self.future().len() > 0),
    {
        self.future.len() > 0
    }
}

/// Redo makes again what undo took back: undoing while the grid is
/// `current` and then redoing on the grid undo gave back leaves the record
/// as it was, with `current` as the grid again.
pub proof fn redo_makes_again_what_undo_took_back<G>(past: Seq<G>, future: Seq<G>, current: G)
    requires
        past.len() > 0,
    ensures
        ({
            let (p1, f1) = after_undo(past, future, current);
            &&& f1.len() > 0
            &&& f1.last() == current
            &&& after_redo(p1, f1, past.last()) == (past, future)
        }),
{
    let (p1, f1) = after_undo(past, future, current);
    assert(p1.push(past.last()) =~= past);
    assert(f1.drop_last() =~= future);
}

/// Undo takes back what redo made again: redoing while the grid is
/// `current` and then undoing on the grid redo gave leaves the record as it
/// was, with `current` as the grid again.
pub proof fn undo_takes_back_what_redo_made_again<G>(past: Seq<G>, future: Seq<G>, current: G)
    requires
        future.len() > 0,
    ensures
        ({
            let (p1, f1) = after_redo(past, future, current);
            &&& p1.len() > 0
            &&& p1.last() == current
            &&& after_undo(p1, f1, future.last()) == (past, future)
        }),
{
    let (p1, f1) = after_redo(past, future, current);
    assert(p1.drop_last() =~= past);
    assert(f1.push(future.last()) =~= future);
}

/// An adjustment made after an undo drops what could have been redone, and
/// is itself the first thing undo takes back.
pub proof fn an_adjustment_drops_what_could_be_redone<G>(
    past: Seq<G>,
    future: Seq<G>,
    before: G,
    current: G,
)
    ensures
        ({
            let (p1, f1) = after_gesture(past, future, before, true);
            &&& f1.len() == 0
            &&& after_redo(p1, f1, current) == (p1, f1)
            &&& after_undo(p1, f1, current) == (past, seq![current])
        }),
{
    let (p1, f1) = after_gesture(past, future, before, true);
    assert(p1.drop_last() =~= past);
    assert(f1.push(current) =~= seq![current]);
}

} // verus!
