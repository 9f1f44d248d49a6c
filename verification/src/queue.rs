use vstd::prelude::*;

use crate::text::str_eq;
use crate::track::{Track, track_eqv};

verus! {

/// Whether no track id occurs twice in the sequence.
pub open spec fn unique_ids(s: Seq<Track>) -> bool {
    forall|i: int, j: int| 0 <= i < j < s.len() ==> s[i].id@ != s[j].id@
}

/// Whether some track in the sequence carries the given id.
pub open spec fn contains_id_spec(s: Seq<Track>, id: Seq<char>) -> bool {
    exists|i: int| 0 <= i < s.len() && s[i].id@ == id
}

/// The index at which the given id sits; meaningful when the id occurs and
/// the ids are unique.
pub open spec fn id_index(s: Seq<Track>, id: Seq<char>) -> int {
    choose|i: int| 0 <= i < s.len() && s[i].id@ == id
}

/// What `enqueue` does to the pending order: append, unless the id is present.
pub open spec fn spec_enqueue(s: Seq<Track>, t: Track) -> Seq<Track> {
    if contains_id_spec(s, t.id@) {
        s
    } else {
        s.push(t)
    }
}

/// What `move_item` does: relocate one entry, or nothing when either index
/// is out of range.
pub open spec fn spec_move_item(s: Seq<Track>, from: int, to: int) -> Seq<Track> {
    if 0 <= from < s.len() && 0 <= to < s.len() {
        s.remove(from).insert(to, s[from])
    } else {
        s
    }
}

/// What `prepend` does: insert at the front, or relocate the entry already
/// carrying the id to the front.
pub open spec fn spec_prepend(s: Seq<Track>, t: Track) -> Seq<Track> {
    if contains_id_spec(s, t.id@) {
        spec_move_item(s, id_index(s, t.id@), 0)
    } else {
        s.insert(0, t)
    }
}

/// Keeping exactly the entries that differ from `track`: what `remove` leaves.
pub open spec fn not_matching(track: Track) -> spec_fn(Track) -> bool {
    |t: Track| !track_eqv(t, track)
}

/// The pending play order: tracks waiting behind the current one, each id
/// appearing at most once.
pub struct Queue {
    tracks: Vec<Track>,
}

impl View for Queue {
    type V = Seq<Track>;

    closed spec fn view(&self) -> Seq<Track> {
        self.tracks@
    }
}

impl Queue {
    /// No id appears twice; `new` establishes this and every method keeps it.
    pub open spec fn wf(&self) -> bool {
        unique_ids(self@)
    }

    pub fn new() -> (q: Queue)
        ensures
            q@ == Seq::<Track>::empty(),
            q.wf(),
    {
        Queue { tracks: Vec::new() }
    }

    pub fn len(&self) -> (n: usize)
        ensures
            n == self@.len(),
    {
        self.tracks.len()
    }

    pub fn is_empty(&self) -> (r: bool)
        ensures
            r == (self@.len() == 0),
    {
        self.tracks.len() == 0
    }

    pub fn get(&self, index: usize) -> (r: Option<&Track>)
        ensures
            index < self@.len() ==> (r matches Some(t) && *t == self@[index as int]),
            index >= self@.len() ==> r is None,
    {
        if index < self.tracks.len() {
            Some(&self.tracks[index])
        } else {
            None
        }
    }

    /// The index the given id sits at, if any; under the queue's invariant
    /// that index is unique.
    pub(crate) fn position_of_id(&self, id: &str) -> (r: Option<usize>)
        ensures
            match r {
                Some(i) => i < self@.len() && self@[i as int].id@ == id@,
                None => !contains_id_spec(self@, id@),
            },
    {
        let n = self.tracks.len();
        let mut i: usize = 0;
        while i < n
            invariant
                n == self@.len(),
                i <= n,
                forall|j: int| 0 <= j < i ==> self@[j].id@ != id@,
            decreases n - i,
        {
            if str_eq(self.tracks[i].id.as_str(), id) {
                return Some(i);
            }
            i = i + 1;
        }
        None
    }

    pub fn contains_id(&self, id: &str) -> (r: bool)
        ensures
            r == contains_id_spec(self@, id@),
    {
        self.position_of_id(id).is_some()
    }

    pub fn enqueue(&mut self, track: Track)
        ensures
            final(self)@ == spec_enqueue(old(self)@, track),
            old(self).wf() ==> final(self).wf(),
    {
        if !self.contains_id(track.id.as_str()) {
            self.tracks.push(track);
            proof {
                if old(self).wf() {
                    assert forall|a: int, b: int| 0 <= a < b < self@.len() implies self@[a].id@
                        != self@[b].id@ by {}
                }
            }
        }
    }

    pub fn prepend(&mut self, track: Track)
        ensures
            !contains_id_spec(old(self)@, track.id@) ==> final(self)@ == old(self)@.insert(
                0,
                track,
            ),
            old(self).wf() ==> final(self)@ == spec_prepend(old(self)@, track)
                && final(self).wf(),
    {
        let pos = self.position_of_id(track.id.as_str());
        match pos {
            None => {
                self.tracks.insert(0, track);
                proof {
                    if old(self).wf() {
                        assert forall|a: int, b: int|
                            0 <= a < b < self@.len() implies self@[a].id@ != self@[b].id@ by {
                            assert(self@[b] == old(self)@[b - 1]);
                            if a > 0 {
                                assert(self@[a] == old(self)@[a - 1]);
                            }
                        }
                    }
                }
            },
            Some(i) => {
                proof {
                    if old(self).wf() {
                        let k = id_index(self@, track.id@);
                        assert(0 <= k < self@.len() && self@[k].id@ == track.id@);
                        assert(k == i as int);
                    }
                }
                self.move_item(i, 0);
            },
        }
    }

    pub fn dequeue(&mut self) -> (r: Option<Track>)
        ensures
            old(self)@.len() == 0 ==> r is None && final(self)@ == old(self)@,
            old(self)@.len() > 0 ==> r == Some(old(self)@[0]) && final(self)@ == old(
                self,
            )@.drop_first(),
            old(self).wf() ==> final(self).wf(),
    {
        if self.tracks.len() == 0 {
            None
        } else {
            let t = self.tracks.remove(0);
            assert(self@ =~= old(self)@.drop_first());
            Some(t)
        }
    }

    /// Drops every entry equal (identity and content) to the given track.
    pub fn remove(&mut self, track: &Track)
        ensures
            final(self)@ == old(self)@.filter(not_matching(*track)),
            old(self).wf() ==> final(self).wf(),
    {
        let ghost pred = not_matching(*track);
        let ghost orig = self.tracks@;
        proof {
            Seq::lemma_filter_len(orig, pred);
            assert(orig.subrange(0, 0).filter(pred) =~= Seq::<Track>::empty()) by {
                reveal(Seq::filter);
            }
        }
        let n = self.tracks.len();
        let mut kept: Vec<Track> = Vec::new();
        let mut i: usize = 0;
        while i < n
            invariant
                n == orig.len(),
                i <= n,
                self.tracks@ == orig,
                kept@ == orig.subrange(0, i as int).filter(not_matching(*track)),
            decreases n - i,
        {
            let ghost orig = self.tracks@;
            let ghost pred = not_matching(*track);
            let ghost prefix = orig.subrange(0, i as int);
            let ghost prefix2 = orig.subrange(0, i + 1);
            let keep = !(&self.tracks[i] == track);
            if keep {
                kept.push(self.tracks[i].clone());
            }
            proof {
                reveal(Seq::filter);
                assert(prefix2.drop_last() =~= prefix);
                assert(prefix2.last() == orig[i as int]);
                assert(keep == pred(orig[i as int]));
                assert(kept@ =~= prefix2.filter(pred));
            }
            i = i + 1;
        }
        proof {
            assert(orig.subrange(0, n as int) =~= orig);
            if old(self).wf() {
                assert forall|a: int, b: int| 0 <= a < b < kept@.len() implies kept@[a].id@
                    != kept@[b].id@ by {
                    lemma_filter_distinct_positions(orig, not_matching(*track), a, b);
                }
            }
        }
        self.tracks = kept;
    }

    pub fn clear(&mut self)
        ensures
            final(self)@ == Seq::<Track>::empty(),
            final(self).wf(),
    {
        self.tracks.clear();
    }

    /// Relocates the entry at `from` to sit at `to`; out-of-range indices are
    /// silently ignored.
    pub fn move_item(&mut self, from: usize, to: usize)
        ensures
            final(self)@ == spec_move_item(old(self)@, from as int, to as int),
            old(self).wf() ==> final(self).wf(),
    {
        if from < self.tracks.len() && to < self.tracks.len() {
            let track = self.tracks.remove(from);
            self.tracks.insert(to, track);
            proof {
                if old(self).wf() {
                    assert forall|a: int, b: int| 0 <= a < b < self@.len() implies self@[a].id@
                        != self@[b].id@ by {}
                }
            }
        }
    }

    /// A snapshot of the pending order; the caller's copy never aliases the
    /// queue's own storage.
    pub fn tracks(&self) -> (r: Vec<Track>)
        ensures
            r@ == self@,
    {
        let r = self.tracks.clone();
        proof {
            assert forall|i: int| 0 <= i < r@.len() implies r@[i] == self@[i] by {
                assert(cloned::<Track>(self@[i], r@[i]));
            }
            assert(r@ =~= self@);
        }
        r
    }

    /// A snapshot under the name the library layer uses.
    pub fn tracks_cloned(&self) -> (r: Vec<Track>)
        ensures
            r@ == self@,
    {
        self.tracks()
    }
}

/// Enqueueing is idempotent by id: a second `enqueue` of the same track
/// changes nothing, and from an empty queue the length settles at one.
pub proof fn lemma_enqueue_idempotent(s: Seq<Track>, t: Track)
    ensures
        spec_enqueue(spec_enqueue(s, t), t) == spec_enqueue(s, t),
        s.len() == 0 ==> spec_enqueue(spec_enqueue(s, t), t).len() == 1,
{
    let s1 = spec_enqueue(s, t);
    if !contains_id_spec(s, t.id@) {
        assert(s1[s.len() as int].id@ == t.id@);
        assert(contains_id_spec(s1, t.id@));
    }
}

/// Prepending a track whose id is already queued never grows the queue: the
/// entry already carrying the id moves to the front and the others keep
/// their relative order.
pub proof fn lemma_prepend_existing(s: Seq<Track>, t: Track)
    requires
        unique_ids(s),
        contains_id_spec(s, t.id@),
    ensures
        spec_prepend(s, t).len() == s.len(),
        spec_prepend(s, t)[0].id@ == t.id@,
        spec_prepend(s, t).drop_first() == s.remove(id_index(s, t.id@)),
{
    let i = id_index(s, t.id@);
    assert(0 <= i < s.len() && s[i].id@ == t.id@);
    assert(spec_prepend(s, t) == s.remove(i).insert(0, s[i]));
    assert(spec_prepend(s, t).drop_first() =~= s.remove(i));
}

/// Two distinct positions of a filtered sequence come from distinct positions
/// of the original, so unique ids survive filtering.
proof fn lemma_filter_distinct_positions(
    s: Seq<Track>,
    pred: spec_fn(Track) -> bool,
    a: int,
    b: int,
)
    requires
        unique_ids(s),
        0 <= a < b < s.filter(pred).len(),
    ensures
        s.filter(pred)[a].id@ != s.filter(pred)[b].id@,
    decreases s.len(),
{
    reveal(Seq::filter);
    if s.len() > 0 {
        let rest = s.drop_last();
        assert(unique_ids(rest));
        let f = s.filter(pred);
        let fr = rest.filter(pred);
        if pred(s.last()) {
            if b < f.len() - 1 {
                lemma_filter_distinct_positions(rest, pred, a, b);
            } else {
                // f[b] is s.last(); f[a] sits in the filtered prefix.
                Seq::lemma_filter_len(rest, pred);
                let w = filter_witness(rest, pred, a);
                assert(s[w].id@ != s.last().id@);
            }
        } else {
            lemma_filter_distinct_positions(rest, pred, a, b);
        }
    }
}

/// An index of the original sequence holding the element that sits at
/// position `a` of the filtered sequence.
proof fn filter_witness(s: Seq<Track>, pred: spec_fn(Track) -> bool, a: int) -> (w: int)
    requires
        0 <= a < s.filter(pred).len(),
    ensures
        0 <= w < s.len(),
        s[w] == s.filter(pred)[a],
    decreases s.len(),
{
    reveal(Seq::filter);
    Seq::lemma_filter_len(s, pred);
    if s.len() == 0 {
        0
    } else {
        let rest = s.drop_last();
        let f = s.filter(pred);
        if pred(s.last()) && a == f.len() - 1 {
            s.len() - 1
        } else {
            filter_witness(rest, pred, a)
        }
    }
}

} // verus!
