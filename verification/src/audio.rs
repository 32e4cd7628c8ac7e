//! The decoded audio the window keeps for the preview: the tracks heard most
//! recently, with every track the render has asked for ranked above every
//! track only read ahead, and at most [`TRACKS_KEPT`] of them.

use vstd::prelude::*;
use crate::units::ContentHash;
use crate::text::owned;

verus! {

/// How many tracks' decoded audio the window keeps.
///
/// A transition sounds two tracks at once, so four leaves room for the pair
/// being heard and the pair on either side of it.
pub const TRACKS_KEPT: usize = 4;

/// One track's decoded audio, kept for as long as the store keeps it.
struct Kept<A> {
    /// The track's content hash.
    hash: ContentHash,
    /// Its decoded audio.
    audio: A,
    /// Whether the render has ever asked for this track.
    heard: bool,
}

/// One kept track as the contracts speak of it.
pub struct KeptView<A> {
    /// The track's content hash.
    pub hash: Seq<u8>,
    /// Its decoded audio.
    pub audio: A,
    /// Whether the render has ever asked for this track.
    pub heard: bool,
}

impl<A> View for Kept<A> {
    type V = KeptView<A>;

    closed spec fn view(&self) -> KeptView<A> {
        KeptView { hash: self.hash@, audio: self.audio, heard: self.heard }
    }
}

/// The decoded audio of the tracks heard most recently, most recently used
/// first, with every track the render has asked for ahead of every track
/// only read ahead.
pub struct AudioCache<A> {
    kept: Vec<Kept<A>>,
}

/// Whether `s` holds the track with hash `hash`.
pub open spec fn holds<A>(s: Seq<KeptView<A>>, hash: Seq<u8>) -> bool {
    exists|i: int| 0 <= i < s.len() && #[trigger] s[i].hash == hash
}

/// What a store has to be: at most [`TRACKS_KEPT`] tracks, no track twice,
/// and no track the render asked for behind one it has not.
pub open spec fn well_kept<A>(s: Seq<KeptView<A>>) -> bool {
    &&& s.len() <= TRACKS_KEPT
    &&& forall|i: int, j: int| 0 <= i < j < s.len() ==> #[trigger] s[i].hash != #[trigger] s[j].hash
    &&& forall|i: int, j: int| 0 <= i < j < s.len() && #[trigger] s[j].heard ==> #[trigger] s[i].heard
}

/// The position of the last track in `s` the render has never asked for, or
/// `-1` when it has asked for every one.
pub open spec fn last_unheard<A>(s: Seq<KeptView<A>>) -> int
    decreases s.len(),
{
    if s.len() == 0 {
        -1
    } else if !s.last().heard {
        s.len() - 1
    } else {
        last_unheard(s.drop_last())
    }
}

/// The track a store holding too many lets go: the last one the render has
/// never asked for, or, when it has asked for every one, the one it asked
/// for longest ago.
pub open spec fn going<A>(s: Seq<KeptView<A>>) -> int {
    if last_unheard(s) >= 0 {
        last_unheard(s)
    } else {
        s.len() - 1
    }
}

/// `s` after one track is let go where more than [`TRACKS_KEPT`] are kept.
pub open spec fn let_go<A>(s: Seq<KeptView<A>>) -> Seq<KeptView<A>> {
    if s.len() <= TRACKS_KEPT {
        s
    } else {
        s.remove(going(s))
    }
}

/// `s` without the track with hash `hash`, wherever it stands.
pub open spec fn without<A>(s: Seq<KeptView<A>>, hash: Seq<u8>) -> Seq<KeptView<A>> {
    if holds(s, hash) {
        s.remove(choose|i: int| 0 <= i < s.len() && #[trigger] s[i].hash == hash)
    } else {
        s
    }
}

proof fn lemma_last_unheard<A>(s: Seq<KeptView<A>>)
    ensures
        -1 <= last_unheard(s) < s.len(),
        last_unheard(s) >= 0 ==> !s[last_unheard(s)].heard,
        forall|k: int| last_unheard(s) < k < s.len() ==> #[trigger] s[k].heard,
    decreases s.len(),
{
    if s.len() > 0 && s.last().heard {
        lemma_last_unheard(s.drop_last());
        assert forall|k: int| last_unheard(s) < k < s.len() implies #[trigger] s[k].heard by {
            if k < s.len() - 1 {
                assert(s.drop_last()[k] == s[k]);
            }
        }
    }
}

proof fn lemma_remove_keeps_well_kept<A>(s: Seq<KeptView<A>>, at: int)
    requires
        0 <= at < s.len(),
        s.len() <= TRACKS_KEPT + 1,
        forall|i: int, j: int| 0 <= i < j < s.len() ==> #[trigger] s[i].hash != #[trigger] s[j].hash,
        forall|i: int, j: int| 0 <= i < j < s.len() && #[trigger] s[j].heard ==> #[trigger] s[i].heard,
    ensures
        s.len() == TRACKS_KEPT + 1 ==> well_kept(s.remove(at)),
        forall|i: int, j: int| 0 <= i < j < s.remove(at).len() ==> #[trigger] s.remove(at)[i].hash != #[trigger] s.remove(at)[j].hash,
        forall|i: int, j: int| 0 <= i < j < s.remove(at).len() && #[trigger] s.remove(at)[j].heard ==> #[trigger] s.remove(at)[i].heard,
{
    let r = s.remove(at);
    assert forall|i: int, j: int| 0 <= i < j < r.len() implies #[trigger] r[i].hash != #[trigger] r[j].hash by {
        let si = if i < at { i } else { i + 1 };
        let sj = if j < at { j } else { j + 1 };
        assert(r[i] == s[si] && r[j] == s[sj]);
    }
    assert forall|i: int, j: int| 0 <= i < j < r.len() && #[trigger] r[j].heard implies #[trigger] r[i].heard by {
        let si = if i < at { i } else { i + 1 };
        let sj = if j < at { j } else { j + 1 };
        assert(r[i] == s[si] && r[j] == s[sj]);
    }
}

impl<A: Clone> AudioCache<A> {
    /// The tracks kept, most recently used first.
    pub closed spec fn kept(&self) -> Seq<KeptView<A>> {
        self.kept@.map_values(|k: Kept<A>| k@)
    }

    /// Whether the store is as a store has to be.
    pub open spec fn wf(&self) -> bool {
        well_kept(self.kept())
    }

    /// An empty store.
    pub fn new() -> (c: AudioCache<A>)
        ensures
            c.kept() == Seq::<KeptView<A>>::empty(),
            c.wf(),
    {
        let c = AudioCache { kept: Vec::new() };
        assert(c.kept() =~= Seq::<KeptView<A>>::empty());
        c
    }

    /// Where the track with `hash` stands, if it is kept.
    fn position_of(&self, hash: &ContentHash) -> (r: Option<usize>)
        ensures
            match r {
                Some(i) => i < self.kept().len() && self.kept()[i as int].hash == hash@,
                None => !holds(self.kept(), hash@),
            },
    {
        let mut i: usize = 0;
        while i < self.kept.len()
            invariant
                i <= self.kept@.len(),
                forall|k: int| 0 <= k < i ==> self.kept@[k].hash@ != hash@,
            decreases self.kept@.len() - i,
        {
            if self.kept[i].hash.same(hash) {
                return Some(i);
            }
            i = i + 1;
        }
        proof {
            assert forall|k: int| 0 <= k < self.kept().len() implies #[trigger] self.kept()[k].hash
                != hash@ by {
                assert(self.kept()[k] == self.kept@[k]@);
            }
        }
        None
    }

    /// The audio of the track with this hash, if it is kept, which counts as
    /// the render asking for it: the track becomes the most recently used,
    /// and one the render has asked for.
    pub fn heard(&mut self, hash: ContentHash) -> (r: Option<A>)
        requires
            old(self).wf(),
        ensures
            final(self).wf(),
            r is Some <==> holds(old(self).kept(), hash@),
            match r {
                Some(audio) => exists|i: int|
                    0 <= i < old(self).kept().len() && #[trigger] old(self).kept()[i].hash == hash@
                        && cloned(old(self).kept()[i].audio, audio) && final(self).kept() == seq![
                        KeptView { heard: true, ..old(self).kept()[i] },
                    ] + old(self).kept().remove(i),
                None => final(self).kept() == old(self).kept(),
            },
    {
        let found = match self.position_of(&hash) {
            Some(i) => i,
            None => {
                return None;
            },
        };
        let ghost before = self.kept();
        let mut entry = self.kept.remove(found);
        entry.heard = true;
        let audio = entry.audio.clone();
        self.kept.insert(0, entry);
        proof {
            let after = self.kept();
            let expected = seq![KeptView { heard: true, ..before[found as int] }] + before.remove(found as int);
            assert(after.len() == expected.len());
            assert forall|k: int| 0 <= k < after.len() implies after[k] == expected[k] by {
                if k > 0 {
                    assert(after[k] == self.kept@[k]@);
                }
            }
            assert(after =~= expected);
            lemma_remove_keeps_well_kept(before, found as int);
            let rest = before.remove(found as int);
            assert forall|i: int, j: int| 0 <= i < j < after.len() implies #[trigger] after[i].hash
                != #[trigger] after[j].hash by {
                if i == 0 {
                    let sj = if j - 1 < found { j - 1 } else { j };
                    assert(after[j] == before[sj]);
                    assert(sj != found as int);
                } else {
                    assert(after[i] == rest[i - 1] && after[j] == rest[j - 1]);
                }
            }
            assert forall|i: int, j: int| 0 <= i < j < after.len() && #[trigger] after[j].heard
                implies #[trigger] after[i].heard by {
                if i > 0 {
                    assert(after[i] == rest[i - 1] && after[j] == rest[j - 1]);
                }
            }
        }
        Some(audio)
    }

    /// Lets one track go when more than [`TRACKS_KEPT`] are kept: the last
    /// track the render has never asked for, or, when it has asked for every
    /// one of them, the one it asked for longest ago.
    fn let_one_go(&mut self)
        requires
            old(self).kept().len() <= TRACKS_KEPT + 1,
            forall|i: int, j: int| 0 <= i < j < old(self).kept().len() ==> #[trigger] old(self).kept()[i].hash != #[trigger] old(self).kept()[j].hash,
            forall|i: int, j: int| 0 <= i < j < old(self).kept().len() && #[trigger] old(self).kept()[j].heard ==> #[trigger] old(self).kept()[i].heard,
        ensures
            final(self).wf(),
            final(self).kept() == let_go(old(self).kept()),
    {
        if self.kept.len() <= TRACKS_KEPT {
            return;
        }
        let ghost before = self.kept();
        let n = self.kept.len();
        let mut k: usize = n;
        while k > 0 && self.kept[k - 1].heard
            invariant
                k <= n == self.kept@.len(),
                before == self.kept(),
                forall|m: int| k <= m < n ==> #[trigger] before[m].heard,
            decreases k,
        {
            proof {
                assert(before[k - 1] == self.kept@[k - 1]@);
            }
            k = k - 1;
        }
        proof {
            lemma_last_unheard(before);
            if k > 0 {
                assert(before[k - 1] == self.kept@[k - 1]@);
                assert(!before[k - 1].heard);
            }
            assert(last_unheard(before) == k - 1);
        }
        let at = if k > 0 { k - 1 } else { n - 1 };
        self.kept.remove(at);
        proof {
            lemma_remove_keeps_well_kept(before, at as int);
            assert(self.kept() =~= before.remove(at as int));
        }
    }

    /// Keeps a track the render asked for as the most recently used, letting
    /// go of one track when that leaves too many kept.
    pub fn keep(&mut self, hash: ContentHash, audio: A)
        requires
            old(self).wf(),
        ensures
            final(self).wf(),
            final(self).kept() == let_go(
                seq![KeptView { hash: hash@, audio, heard: true }] + without(old(self).kept(), hash@),
            ),
    {
        let ghost before = self.kept();
        if let Some(i) = self.position_of(&hash) {
            self.kept.remove(i);
            proof {
                lemma_remove_keeps_well_kept(before, i as int);
                assert(self.kept() =~= before.remove(i as int));
                let j = choose|j: int| 0 <= j < before.len() && #[trigger] before[j].hash == hash@;
                if j != i as int {
                    if j < i as int {
                        assert(before[j].hash != before[i as int].hash);
                    } else {
                        assert(before[i as int].hash != before[j].hash);
                    }
                }
                assert(without(before, hash@) == before.remove(i as int));
            }
        }
        let ghost rest = self.kept();
        assert(rest == without(before, hash@));
        proof {
            assert forall|k: int| 0 <= k < rest.len() implies #[trigger] rest[k].hash != hash@ by {
                if holds(before, hash@) {
                    let i = choose|j: int| 0 <= j < before.len() && #[trigger] before[j].hash == hash@;
                    let sk = if k < i { k } else { k + 1 };
                    assert(rest[k] == before[sk]);
                    assert(sk != i);
                    if sk < i {
                        assert(before[sk].hash != before[i].hash);
                    } else {
                        assert(before[i].hash != before[sk].hash);
                    }
                } else {
                    assert(rest[k] == before[k]);
                }
            }
        }
        self.kept.insert(0, Kept { hash, audio, heard: true });
        proof {
            let after = self.kept();
            let expected = seq![KeptView { hash: hash@, audio, heard: true }] + rest;
            assert forall|k: int| 0 <= k < after.len() implies after[k] == expected[k] by {
                if k > 0 {
                    assert(after[k] == self.kept@[k]@);
                }
            }
            assert(after =~= expected);
            assert forall|i: int, j: int| 0 <= i < j < after.len() implies #[trigger] after[i].hash
                != #[trigger] after[j].hash by {
                if i == 0 {
                    assert(after[j] == rest[j - 1]);
                } else {
                    assert(after[i] == rest[i - 1] && after[j] == rest[j - 1]);
                }
            }
            assert forall|i: int, j: int| 0 <= i < j < after.len() && #[trigger] after[j].heard
                implies #[trigger] after[i].heard by {
                if i > 0 {
                    assert(after[i] == rest[i - 1] && after[j] == rest[j - 1]);
                }
            }
        }
        self.let_one_go();
    }

    /// Keeps a track the reading thread has decoded, while there is room for
    /// it, ranked below every track the render has asked for. A full store,
    /// and a store that already holds the track, are left as they are.
    pub fn read_ahead(&mut self, hash: ContentHash, audio: A)
        requires
            old(self).wf(),
        ensures
            final(self).wf(),
            final(self).kept() == if old(self).kept().len() >= TRACKS_KEPT || holds(
                old(self).kept(),
                hash@,
            ) {
                old(self).kept()
            } else {
                old(self).kept().push(KeptView { hash: hash@, audio, heard: false })
            },
    {
        if self.kept.len() >= TRACKS_KEPT {
            return;
        }
        if self.position_of(&hash).is_some() {
            return;
        }
        let ghost before = self.kept();
        self.kept.push(Kept { hash, audio, heard: false });
        proof {
            let after = self.kept();
            assert(after =~= before.push(KeptView { hash: hash@, audio, heard: false }));
            assert forall|i: int, j: int| 0 <= i < j < after.len() implies #[trigger] after[i].hash
                != #[trigger] after[j].hash by {
                if j == before.len() {
                    assert(after[i] == before[i]);
                }
            }
        }
    }
}

/// The store after the render asked for `audio` under `hash`.
pub open spec fn after_keep<A>(s: Seq<KeptView<A>>, hash: Seq<u8>, audio: A) -> Seq<KeptView<A>> {
    let_go(seq![KeptView { hash, audio, heard: true }] + without(s, hash))
}

/// The store after the render asked again for the track at `at`.
pub open spec fn after_heard<A>(s: Seq<KeptView<A>>, at: int) -> Seq<KeptView<A>> {
    seq![KeptView { heard: true, ..s[at] }] + s.remove(at)
}

proof fn lemma_without<A>(s: Seq<KeptView<A>>, hash: Seq<u8>)
    requires
        well_kept(s),
    ensures
        without(s, hash).len() <= TRACKS_KEPT,
        !holds(s, hash) ==> without(s, hash) == s,
        holds(s, hash) ==> without(s, hash).len() == s.len() - 1,
        forall|k: int| 0 <= k < without(s, hash).len() ==> #[trigger] without(s, hash)[k].hash != hash,
        forall|k: int| 0 <= k < s.len() && s[k].hash != hash ==> #[trigger] holds(without(s, hash), s[k].hash),
{
    if holds(s, hash) {
        let i = choose|j: int| 0 <= j < s.len() && #[trigger] s[j].hash == hash;
        let r = s.remove(i);
        assert forall|k: int| 0 <= k < r.len() implies #[trigger] r[k].hash != hash by {
            let sk = if k < i { k } else { k + 1 };
            assert(r[k] == s[sk]);
        }
        assert forall|k: int| 0 <= k < s.len() && s[k].hash != hash implies #[trigger] holds(r, s[k].hash) by {
            let rk = if k < i { k } else { k - 1 };
            assert(r[rk] == s[k]);
        }
    } else {
        assert forall|k: int| 0 <= k < s.len() && s[k].hash != hash implies #[trigger] holds(s, s[k].hash) by {
            assert(s[k].hash == s[k].hash);
        }
    }
}

/// The track the render asked for last is kept, at the front of the store.
pub proof fn the_track_kept_last_is_first<A>(s: Seq<KeptView<A>>, hash: Seq<u8>, audio: A)
    requires
        well_kept(s),
    ensures
        after_keep(s, hash, audio).len() > 0,
        after_keep(s, hash, audio)[0] == (KeptView { hash, audio, heard: true }),
        well_kept(after_keep(s, hash, audio)),
{
    lemma_without(s, hash);
    let t = seq![KeptView { hash, audio, heard: true }] + without(s, hash);
    lemma_last_unheard(t);
    assert(t[0].heard);
    if t.len() > TRACKS_KEPT {
        assert(going(t) > 0);
        assert(t.remove(going(t))[0] == t[0]);
    }
}

/// When the render has asked for every track of a full store, keeping
/// another lets go of the one it asked for longest ago, and only that one.
pub proof fn the_track_used_longest_ago_is_let_go_first<A>(
    s: Seq<KeptView<A>>,
    hash: Seq<u8>,
    audio: A,
)
    requires
        well_kept(s),
        s.len() == TRACKS_KEPT,
        forall|k: int| 0 <= k < s.len() ==> #[trigger] s[k].heard,
        !holds(s, hash),
    ensures
        after_keep(s, hash, audio) == seq![KeptView { hash, audio, heard: true }] + s.take(
            TRACKS_KEPT - 1,
        ),
        !holds(after_keep(s, hash, audio), s[TRACKS_KEPT - 1].hash),
{
    lemma_without(s, hash);
    let t = seq![KeptView { hash, audio, heard: true }] + s;
    lemma_last_unheard(t);
    assert forall|k: int| 0 <= k < t.len() implies #[trigger] t[k].heard by {
        if k > 0 {
            assert(t[k] == s[k - 1]);
        }
    }
    assert(last_unheard(t) == -1);
    let r = after_keep(s, hash, audio);
    assert(r =~= seq![KeptView { hash, audio, heard: true }] + s.take(TRACKS_KEPT - 1));
    assert forall|k: int| 0 <= k < r.len() implies #[trigger] r[k].hash != s[TRACKS_KEPT - 1].hash by {
        if k == 0 {
            assert(s[TRACKS_KEPT - 1].hash == s[TRACKS_KEPT - 1].hash);
        } else {
            assert(r[k] == s[k - 1]);
        }
    }
}

/// A full store that holds a track only read ahead lets go of such a track,
/// never of one the render has asked for, when the render asks for another.
pub proof fn a_track_read_ahead_is_let_go_before_one_asked_for<A>(
    s: Seq<KeptView<A>>,
    hash: Seq<u8>,
    audio: A,
    asked: int,
)
    requires
        well_kept(s),
        s.len() == TRACKS_KEPT,
        exists|k: int| 0 <= k < s.len() && !(#[trigger] s[k].heard),
        0 <= asked < s.len(),
        s[asked].heard,
    ensures
        holds(after_keep(s, hash, audio), s[asked].hash),
{
    lemma_without(s, hash);
    let w = without(s, hash);
    let t = seq![KeptView { hash, audio, heard: true }] + w;
    if s[asked].hash == hash {
        the_track_kept_last_is_first(s, hash, audio);
        assert(after_keep(s, hash, audio)[0].hash == s[asked].hash);
    } else {
        assert(holds(w, s[asked].hash));
        let wi = choose|j: int| 0 <= j < w.len() && #[trigger] w[j].hash == s[asked].hash;
        assert(t[wi + 1] == w[wi]);
        if t.len() <= TRACKS_KEPT {
            assert(holds(t, s[asked].hash));
        } else {
            assert(!holds(s, hash));
            assert(w == s);
            let k = choose|k: int| 0 <= k < s.len() && !(#[trigger] s[k].heard);
            assert(!t[k + 1].heard);
            lemma_last_unheard(t);
            assert(last_unheard(t) >= 0);
            let g = going(t);
            assert(!t[g].heard);
            assert(t[wi + 1].heard);
            let r = t.remove(g);
            let ri = if wi + 1 < g { wi + 1 } else { wi };
            assert(r[ri] == t[wi + 1]);
            assert(holds(r, s[asked].hash));
        }
    }
}

/// A track the render asks for again outlives the next track kept after it.
pub proof fn hearing_a_track_keeps_it_from_being_let_go<A>(
    s: Seq<KeptView<A>>,
    at: int,
    hash: Seq<u8>,
    audio: A,
)
    requires
        well_kept(s),
        0 <= at < s.len(),
        hash != s[at].hash,
    ensures
        holds(after_keep(after_heard(s, at), hash, audio), s[at].hash),
{
    let h = after_heard(s, at);
    lemma_remove_keeps_well_kept(s, at);
    let rest = s.remove(at);
    assert forall|i: int, j: int| 0 <= i < j < h.len() implies #[trigger] h[i].hash != #[trigger] h[j].hash by {
        if i == 0 {
            let sj = if j - 1 < at { j - 1 } else { j };
            assert(h[j] == s[sj]);
        } else {
            assert(h[i] == rest[i - 1] && h[j] == rest[j - 1]);
        }
    }
    assert forall|i: int, j: int| 0 <= i < j < h.len() && #[trigger] h[j].heard implies #[trigger] h[i].heard by {
        if i > 0 {
            assert(h[i] == rest[i - 1] && h[j] == rest[j - 1]);
        }
    }
    assert(well_kept(h));
    lemma_without(h, hash);
    let w = without(h, hash);
    assert(h[0].hash == s[at].hash);
    assert(holds(w, s[at].hash));
    let wi = choose|j: int| 0 <= j < w.len() && #[trigger] w[j].hash == s[at].hash;
    let t = seq![KeptView { hash, audio, heard: true }] + w;
    assert(t[wi + 1] == w[wi]);
    if t.len() <= TRACKS_KEPT {
        assert(holds(t, s[at].hash));
    } else {
        assert(w == h);
        assert(wi == 0) by {
            if wi != 0 {
                assert(h[0].hash != h[wi].hash);
            }
        }
        lemma_last_unheard(t);
        let g = going(t);
        assert(t[1].heard);
        assert(g != 1);
        let r = t.remove(g);
        assert(r[1] == t[1] || g == 0);
        assert(g != 0) by {
            assert(t[0].heard);
        }
        assert(holds(r, s[at].hash));
    }
}

impl<A: Clone> Default for AudioCache<A> {
    fn default() -> (c: AudioCache<A>)
        ensures
            c.kept() == Seq::<KeptView<A>>::empty(),
            c.wf(),
    {
        AudioCache::new()
    }
}

/// One track for the reading thread to work on.
#[derive(Debug, PartialEq, Eq)]
pub struct Wanted {
    /// The track's content hash, which the timeline keys everything by.
    pub hash: ContentHash,
    /// Where its audio file is.
    pub path: String,
}

/// A wanted track as the contracts speak of it.
pub open spec fn wanted_view(w: Wanted) -> (Seq<u8>, Seq<char>) {
    (w.hash@, w.path@)
}

/// The hashes of `hashes`, as a set.
pub open spec fn hash_set(hashes: Seq<ContentHash>) -> Set<Seq<u8>> {
    hashes.map_values(|h: ContentHash| h@).to_set()
}

/// The tracks of `tracks` to hand the reading thread, in playlist order,
/// and the hashes handed after that, given the hashes `skip` of tracks with
/// no file and the hashes `handed` already handed.
pub open spec fn to_read(
    tracks: Seq<(Seq<u8>, Seq<char>)>,
    skip: Set<Seq<u8>>,
    handed: Set<Seq<u8>>,
) -> (Seq<(Seq<u8>, Seq<char>)>, Set<Seq<u8>>)
    decreases tracks.len(),
{
    if tracks.len() == 0 {
        (Seq::empty(), handed)
    } else {
        let (wanted, now) = to_read(tracks.drop_last(), skip, handed);
        let t = tracks.last();
        if skip.contains(t.0) || now.contains(t.0) {
            (wanted, now)
        } else {
            (wanted.push(t), now.insert(t.0))
        }
    }
}

/// No file is handed to the reading thread twice, none with no file is
/// handed at all, and every other track of the mix ends up handed.
pub proof fn every_file_is_read_once(
    tracks: Seq<(Seq<u8>, Seq<char>)>,
    skip: Set<Seq<u8>>,
    handed: Set<Seq<u8>>,
)
    ensures
        ({
            let (w, h) = to_read(tracks, skip, handed);
            &&& forall|i: int, j: int| 0 <= i < j < w.len() ==> #[trigger] w[i].0 != #[trigger] w[j].0
            &&& forall|i: int| 0 <= i < w.len() ==> !skip.contains(#[trigger] w[i].0) && !handed.contains(w[i].0)
            &&& forall|i: int| 0 <= i < w.len() ==> h.contains(#[trigger] w[i].0)
            &&& forall|x: Seq<u8>| handed.contains(x) ==> h.contains(x)
            &&& forall|k: int| 0 <= k < tracks.len() && !skip.contains(#[trigger] tracks[k].0) ==> h.contains(tracks[k].0)
            &&& forall|x: Seq<u8>| #[trigger] h.contains(x) ==> handed.contains(x) || exists|i: int| 0 <= i < w.len() && w[i].0 == x
        }),
    decreases tracks.len(),
{
    if tracks.len() > 0 {
        let rest = tracks.drop_last();
        every_file_is_read_once(rest, skip, handed);
        let (w0, h0) = to_read(rest, skip, handed);
        let t = tracks.last();
        let (w, h) = to_read(tracks, skip, handed);
        if !(skip.contains(t.0) || h0.contains(t.0)) {
            assert(w == w0.push(t));
            assert forall|i: int, j: int| 0 <= i < j < w.len() implies #[trigger] w[i].0 != #[trigger] w[j].0 by {
                if j == w0.len() {
                    assert(h0.contains(w0[i].0));
                }
            }
            assert forall|x: Seq<u8>| #[trigger] h.contains(x) implies handed.contains(x) || exists|i: int| 0 <= i < w.len() && w[i].0 == x by {
                if x == t.0 {
                    assert(w[w0.len() as int].0 == x);
                } else {
                    assert(h0.contains(x));
                    if !handed.contains(x) {
                        let i = choose|i: int| 0 <= i < w0.len() && w0[i].0 == x;
                        assert(w[i].0 == x);
                    }
                }
            }
        }
        assert forall|k: int| 0 <= k < tracks.len() && !skip.contains(#[trigger] tracks[k].0) implies h.contains(tracks[k].0) by {
            if k < rest.len() {
                assert(rest[k] == tracks[k]);
            }
        }
    }
}

fn has_hash(hashes: &Vec<ContentHash>, hash: &ContentHash) -> (r: bool)
    ensures
        r == hash_set(hashes@).contains(hash@),
{
    let mut i: usize = 0;
    while i < hashes.len()
        invariant
            i <= hashes@.len(),
            forall|k: int| 0 <= k < i ==> hashes@[k]@ != hash@,
        decreases hashes@.len() - i,
    {
        if hashes[i].same(hash) {
            assert(hashes@.map_values(|h: ContentHash| h@)[i as int] == hash@);
            return true;
        }
        i = i + 1;
    }
    proof {
        let views = hashes@.map_values(|h: ContentHash| h@);
        if views.contains(hash@) {
            let k = choose|k: int| 0 <= k < views.len() && #[trigger] views[k] == hash@;
            assert(hashes@[k]@ == hash@);
        }
    }
    false
}

/// The tracks of the mix, `tracks` in playlist order, that the reading
/// thread has not been given yet, with the content hash of each of them
/// added to `handed`.
///
/// A track the window has no file for, whose hash `no_file` holds, is left
/// out, since there is nothing to read. A file that is in the mix at two
/// positions is given once, because everything the reading thread finds is
/// keyed by content hash.
pub fn to_be_read(
    tracks: &Vec<Wanted>,
    no_file: &Vec<ContentHash>,
    handed: &mut Vec<ContentHash>,
) -> (wanted: Vec<Wanted>)
    ensures
        ({
            let (w, h) = to_read(
                tracks@.map_values(|t: Wanted| wanted_view(t)),
                hash_set(no_file@),
                hash_set(old(handed)@),
            );
            &&& wanted@.map_values(|t: Wanted| wanted_view(t)) == w
            &&& hash_set(final(handed)@) == h
        }),
{
    let ghost all = tracks@.map_values(|t: Wanted| wanted_view(t));
    let ghost skip = hash_set(no_file@);
    let ghost start = hash_set(handed@);
    let mut wanted: Vec<Wanted> = Vec::new();
    let mut i: usize = 0;
    while i < tracks.len()
        invariant
            i <= tracks@.len(),
            all == tracks@.map_values(|t: Wanted| wanted_view(t)),
            skip == hash_set(no_file@),
            ({
                let (w, h) = to_read(all.take(i as int), skip, start);
                &&& wanted@.map_values(|t: Wanted| wanted_view(t)) == w
                &&& hash_set(handed@) == h
            }),
        decreases tracks@.len() - i,
    {
        let track = &tracks[i];
        proof {
            assert(all.take(i + 1).drop_last() =~= all.take(i as int));
            assert(all.take(i + 1).last() == wanted_view(tracks@[i as int]));
        }
        if !has_hash(no_file, &track.hash) && !has_hash(handed, &track.hash) {
            let ghost before_w = wanted@.map_values(|t: Wanted| wanted_view(t));
            let ghost before_h = handed@;
            handed.push(track.hash);
            wanted.push(Wanted { hash: track.hash, path: track.path.clone() });
            proof {
                assert(wanted@.map_values(|t: Wanted| wanted_view(t)) =~= before_w.push(
                    wanted_view(tracks@[i as int]),
                ));
                let hv = handed@.map_values(|h: ContentHash| h@);
                let bv = before_h.map_values(|h: ContentHash| h@);
                assert(hv =~= bv.push(track.hash@));
                assert forall|x: Seq<u8>| hv.contains(x) <==> (bv.contains(x) || x == track.hash@) by {
                    if hv.contains(x) {
                        let k = choose|k: int| 0 <= k < hv.len() && #[trigger] hv[k] == x;
                        if k < bv.len() {
                            assert(bv[k] == x);
                        }
                    }
                    if bv.contains(x) {
                        let k = choose|k: int| 0 <= k < bv.len() && #[trigger] bv[k] == x;
                        assert(hv[k] == x);
                    }
                    if x == track.hash@ {
                        assert(hv[bv.len() as int] == x);
                    }
                }
                assert(hash_set(handed@) =~= hash_set(before_h).insert(track.hash@));
            }
        }
        i = i + 1;
    }
    assert(all.take(tracks@.len() as int) =~= all);
    wanted
}

/// What the status line says about the stretcher: this build has no
/// pitch-preserving stretcher, so a person hearing a track with keylock is
/// told why its pitch moves.
pub fn keylock_note() -> (r: Option<String>)
    ensures
        r matches Some(note) && note@ == KEYLOCK_NOTE@,
{
    Some(owned(KEYLOCK_NOTE))
}

/// The note [`keylock_note`] gives.
pub const KEYLOCK_NOTE: &'static str = "This build has no pitch-preserving stretcher, so tracks with keylock are resampled and their pitch moves with their speed";

}
