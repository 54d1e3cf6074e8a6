//! Timelines: named collections of heterogeneous tracks on one time axis.

use vstd::prelude::*;

use crate::time::TrackTime;
use crate::track::Sample;
use crate::variant::{TrackValue, TrackVariant};

verus! {

/// The first index in `s` whose name reads `name`, or `s.len()`.
pub open spec fn index_of_name(s: Seq<(Seq<char>, TrackVariant)>, name: Seq<char>) -> int {
    index_of_name_from(s, name, 0)
}

/// See [`index_of_name`], scanning from index `i` on.
pub open spec fn index_of_name_from(
    s: Seq<(Seq<char>, TrackVariant)>,
    name: Seq<char>,
    i: int,
) -> int
    decreases s.len() - i,
{
    if i < 0 || i >= s.len() {
        s.len() as int
    } else if s[i].0 == name {
        i
    } else {
        index_of_name_from(s, name, i + 1)
    }
}

/// A named collection of heterogeneous tracks sharing one time axis.
///
/// Names are unique; adding a track under a name already in use replaces the
/// track held under that name (last write wins).
#[derive(Debug)]
pub struct Timeline {
    tracks: Vec<(String, TrackVariant)>,
}

impl View for Timeline {
    type V = Seq<(Seq<char>, TrackVariant)>;

    closed spec fn view(&self) -> Seq<(Seq<char>, TrackVariant)> {
        Seq::new(self.tracks@.len(), |i: int| (self.tracks@[i].0@, self.tracks@[i].1))
    }
}

impl Timeline {
    /// Well-formedness: track names are unique and every track is
    /// well-formed.  Every construction and mutation of a timeline
    /// establishes it.
    pub open spec fn wf(&self) -> bool {
        &&& forall|i: int, j: int|
            0 <= i < j < self@.len() ==> #[trigger] self@[i].0 != #[trigger] self@[j].0
        &&& forall|i: int| 0 <= i < self@.len() ==> (#[trigger] self@[i].1).wf()
    }

    /// Whether a track is held under `name`.
    pub open spec fn contains_name(&self, name: Seq<char>) -> bool {
        index_of_name(self@, name) < self@.len()
    }

    /// The track held under `name`.
    pub open spec fn track_named(&self, name: Seq<char>) -> TrackVariant {
        self@[index_of_name(self@, name)].1
    }

    /// An empty timeline.
    pub fn new() -> (tl: Timeline)
        ensures
            tl@ == Seq::<(Seq<char>, TrackVariant)>::empty(),
            tl.wf(),
    {
        let tl = Timeline { tracks: Vec::new() };
        proof {
            assert(tl@ =~= Seq::<(Seq<char>, TrackVariant)>::empty());
        }
        tl
    }

    /// How many tracks the timeline holds.
    pub fn len(&self) -> (n: usize)
        ensures
            n == self@.len(),
    {
        self.tracks.len()
    }

    /// Whether a track is held under `name`.
    pub fn contains_key(&self, name: &str) -> (r: bool)
        ensures
            r == self.contains_name(name@),
    {
        self.get(name).is_some()
    }

    /// Stores `track` under `name`.  A track already held under `name` is
    /// replaced; tracks under other names are untouched.
    pub fn add(&mut self, name: &str, track: TrackVariant)
        requires
            old(self).wf(),
            track.wf(),
            old(self)@.len() < usize::MAX,
        ensures
            final(self).wf(),
            final(self).contains_name(name@),
            final(self).track_named(name@) == track,
            forall|n: Seq<char>|
                n != name@ ==> final(self).contains_name(n) == old(self).contains_name(n),
            forall|n: Seq<char>|
                n != name@ && old(self).contains_name(n) ==> final(self).track_named(n) == old(
                    self,
                ).track_named(n),
            final(self)@.len() == old(self)@.len() + (if old(self).contains_name(name@) {
                0int
            } else {
                1int
            }),
    {
        let ghost s0 = self@;
        let key: String = name.to_owned();
        let n = self.tracks.len();
        let mut k: usize = 0;
        while k < n && !str_equal(self.tracks[k].0.as_str(), name)
            invariant
                n == s0.len(),
                k <= n,
                self@ == s0,
                key@ == name@,
                index_of_name(s0, name@) == index_of_name_from(s0, name@, k as int),
            decreases n - k,
        {
            k = k + 1;
        }
        assert(index_of_name(s0, name@) == k);
        if k < n {
            self.tracks.set(k, (key, track));
            proof {
                assert(self@ =~= s0.update(k as int, (name@, track)));
                lemma_index_of_name_props(s0, name@);
                self.lemma_add_update(s0, name@, track, k as int);
            }
        } else {
            self.tracks.push((key, track));
            proof {
                assert(self@ =~= s0.push((name@, track)));
                lemma_index_of_name_props(s0, name@);
                self.lemma_add_push(s0, name@, track);
            }
        }
    }

    /// The track held under `name`, or `None` if the name is unknown.
    pub fn get(&self, name: &str) -> (r: Option<&TrackVariant>)
        ensures
            match r {
                Some(t) => self.contains_name(name@) && *t == self.track_named(name@),
                None => !self.contains_name(name@),
            },
    {
        let ghost s = self@;
        let n = self.tracks.len();
        let mut k: usize = 0;
        while k < n && !str_equal(self.tracks[k].0.as_str(), name)
            invariant
                n == s.len(),
                k <= n,
                self@ == s,
                index_of_name(s, name@) == index_of_name_from(s, name@, k as int),
            decreases n - k,
        {
            k = k + 1;
        }
        assert(index_of_name(s, name@) == k);
        if k < n {
            Some(&self.tracks[k].1)
        } else {
            None
        }
    }

    /// A mutable borrow of the track held under `name`, or `None` if the
    /// name is unknown.
    ///
    /// The caller may replace the track wholesale; the name it is held under
    /// and all other tracks are untouched.  A caller that leaves the track
    /// ill-formed must re-establish the timeline's well-formedness itself.
    pub fn get_mut(&mut self, name: &str) -> (r: Option<&mut TrackVariant>)
        ensures
            old(self).contains_name(name@) ==> r is Some && *r->0 == old(self).track_named(name@)
                && final(self)@.len() == old(self)@.len() && (forall|j: int|
                0 <= j < old(self)@.len() && j != index_of_name(old(self)@, name@)
                    ==> #[trigger] final(self)@[j] == old(self)@[j]) && final(self)@[index_of_name(
                old(self)@,
                name@,
            )] == (name@, *final(r->0)),
            !old(self).contains_name(name@) ==> r is None && *final(self) == *old(self),
    {
        let ghost s = self@;
        let n = self.tracks.len();
        let mut k: usize = 0;
        while k < n && !str_equal(self.tracks[k].0.as_str(), name)
            invariant
                n == s.len(),
                k <= n,
                self@ == s,
                index_of_name(s, name@) == index_of_name_from(s, name@, k as int),
            decreases n - k,
        {
            k = k + 1;
        }
        assert(index_of_name(s, name@) == k);
        proof {
            lemma_index_of_name_props(s, name@);
        }
        if k < n {
            Some(&mut self.tracks[k].1)
        } else {
            None
        }
    }

    /// Samples the track held under `name` at `time`.
    ///
    /// Asking for an unknown name, or sampling a track with no keyframes, is
    /// a wiring bug on the caller's side.  The result is consumed as for
    /// [`TrackVariant::sample`].
    pub fn sample(&self, name: &str, time: TrackTime) -> (r: Sample<TrackValue>)
        requires
            self.wf(),
            self.contains_name(name@),
            self.track_named(name@).keyframe_count() > 0,
        ensures
            r == self.track_named(name@).spec_sample(time),
    {
        let track = match self.get(name) {
            Some(track) => track,
            None => unreached(),
        };
        proof {
            lemma_index_of_name_props(self@, name@);
            assert((self@[index_of_name(self@, name@)].1).wf());
        }
        track.sample(time)
    }

    /// The maximum duration across all tracks, or the zero sentinel for a
    /// timeline with no tracks.
    pub fn get_max_duration(&self) -> (d: TrackTime)
        ensures
            forall|i: int|
                0 <= i < self@.len() ==> (#[trigger] self@[i].1).spec_duration().millis
                    <= d.millis,
            d.millis == 0 || exists|i: int|
                0 <= i < self@.len() && (#[trigger] self@[i].1).spec_duration() == d,
    {
        let mut max_duration = TrackTime::zero();
        let n = self.tracks.len();
        let mut k: usize = 0;
        while k < n
            invariant
                n == self@.len(),
                k <= n,
                forall|i: int|
                    0 <= i < k ==> (#[trigger] self@[i].1).spec_duration().millis
                        <= max_duration.millis,
                max_duration.millis == 0 || exists|i: int|
                    0 <= i < k && (#[trigger] self@[i].1).spec_duration() == max_duration,
            decreases n - k,
        {
            let duration = self.tracks[k].1.get_duration();
            if max_duration.lt(&duration) {
                max_duration = duration;
                proof {
                    assert((self@[k as int].1).spec_duration() == max_duration);
                }
            }
            k = k + 1;
        }
        max_duration
    }

    /// `index_of_name` points at the first entry named `name`: every earlier
    /// entry bears another name, and the entry there, if any, bears `name`.
    proof fn lemma_add_update(
        &self,
        s0: Seq<(Seq<char>, TrackVariant)>,
        name: Seq<char>,
        track: TrackVariant,
        k: int,
    )
        requires
            forall|i: int, j: int| 0 <= i < j < s0.len() ==> #[trigger] s0[i].0 != #[trigger] s0[j].0,
            forall|i: int| 0 <= i < s0.len() ==> (#[trigger] s0[i].1).wf(),
            track.wf(),
            0 <= k < s0.len(),
            k == index_of_name(s0, name),
            s0[k].0 == name,
            self@ == s0.update(k, (name, track)),
        ensures
            self.wf(),
            self.contains_name(name),
            self.track_named(name) == track,
            forall|n: Seq<char>|
                n != name ==> self.contains_name(n) == (index_of_name(s0, n) < s0.len()),
            forall|n: Seq<char>|
                n != name && index_of_name(s0, n) < s0.len() ==> self.track_named(n) == s0[
                    index_of_name(s0, n)].1,
            self@.len() == s0.len(),
    {
        let s1 = self@;
        assert(forall|i: int| 0 <= i < s1.len() && i != k ==> s1[i] == s0[i]);
        lemma_index_of_name_props(s0, name);
        lemma_index_of_name_same_names(s0, s1, name);
        assert(self.contains_name(name) && self.track_named(name) == track);
        assert forall|n: Seq<char>| n != name implies self.contains_name(n) == (index_of_name(
            s0,
            n,
        ) < s0.len()) && (index_of_name(s0, n) < s0.len() ==> self.track_named(n) == s0[
            index_of_name(s0, n)].1) by {
            lemma_index_of_name_props(s0, n);
            lemma_index_of_name_props(s1, n);
            lemma_index_of_name_same_names(s0, s1, n);
            if index_of_name(s1, n) < s1.len() {
                assert(s1[index_of_name(s1, n)].0 == n);
                assert(index_of_name(s1, n) != k);
            }
        }
    }

    /// See [`Self::lemma_add_update`]: the case of a fresh name, appended.
    proof fn lemma_add_push(
        &self,
        s0: Seq<(Seq<char>, TrackVariant)>,
        name: Seq<char>,
        track: TrackVariant,
    )
        requires
            forall|i: int, j: int| 0 <= i < j < s0.len() ==> #[trigger] s0[i].0 != #[trigger] s0[j].0,
            forall|i: int| 0 <= i < s0.len() ==> (#[trigger] s0[i].1).wf(),
            track.wf(),
            index_of_name(s0, name) == s0.len(),
            self@ == s0.push((name, track)),
        ensures
            self.wf(),
            self.contains_name(name),
            self.track_named(name) == track,
            forall|n: Seq<char>|
                n != name ==> self.contains_name(n) == (index_of_name(s0, n) < s0.len()),
            forall|n: Seq<char>|
                n != name && index_of_name(s0, n) < s0.len() ==> self.track_named(n) == s0[
                    index_of_name(s0, n)].1,
            self@.len() == s0.len() + 1,
    {
        let s1 = self@;
        lemma_index_of_name_props(s0, name);
        assert(forall|i: int| 0 <= i < s0.len() ==> s1[i] == s0[i]);
        lemma_index_of_name_props(s1, name);
        assert(s1[s0.len() as int].0 == name);
        assert(forall|i: int| 0 <= i < s0.len() ==> #[trigger] s1[i].0 != name);
        assert(index_of_name(s1, name) == s0.len());
        assert(self.contains_name(name));
        assert forall|n: Seq<char>| n != name implies self.contains_name(n) == (index_of_name(
            s0,
            n,
        ) < s0.len()) && (index_of_name(s0, n) < s0.len() ==> self.track_named(n) == s0[
            index_of_name(s0, n)].1) by {
            lemma_index_of_name_props(s0, n);
            lemma_index_of_name_props(s1, n);
            if index_of_name(s1, n) < s1.len() {
                assert(s1[index_of_name(s1, n)].0 == n);
                assert(index_of_name(s1, n) != s0.len());
            }
            if index_of_name(s0, n) < s0.len() {
                assert(s0[index_of_name(s0, n)].0 == n);
                assert(s1[index_of_name(s0, n)].0 == n);
                assert(index_of_name(s1, n) <= index_of_name(s0, n));
            }
        }
    }
}

/// Whether two strings read the same.  Equality is specified on owned
/// strings, so the comparison goes through owned copies.
fn str_equal(a: &str, b: &str) -> (r: bool)
    ensures
        r == (a@ == b@),
{
    let a_string: String = a.to_owned();
    let b_string: String = b.to_owned();
    a_string == b_string
}

/// The entries before `index_of_name(s, name)` bear other names; the entry
/// there, if any, bears `name`.
proof fn lemma_index_of_name_props(s: Seq<(Seq<char>, TrackVariant)>, name: Seq<char>)
    ensures
        0 <= index_of_name(s, name) <= s.len(),
        forall|j: int| 0 <= j < index_of_name(s, name) ==> #[trigger] s[j].0 != name,
        index_of_name(s, name) < s.len() ==> s[index_of_name(s, name)].0 == name,
{
    lemma_index_of_name_from_props(s, name, 0);
}

proof fn lemma_index_of_name_from_props(
    s: Seq<(Seq<char>, TrackVariant)>,
    name: Seq<char>,
    i: int,
)
    requires
        0 <= i <= s.len(),
    ensures
        i <= index_of_name_from(s, name, i) <= s.len(),
        forall|j: int| i <= j < index_of_name_from(s, name, i) ==> #[trigger] s[j].0 != name,
        index_of_name_from(s, name, i) < s.len() ==> s[index_of_name_from(s, name, i)].0 == name,
    decreases s.len() - i,
{
    if i < s.len() && s[i].0 != name {
        lemma_index_of_name_from_props(s, name, i + 1);
    }
}

/// Two entry sequences of equal length whose names agree everywhere are
/// scanned alike.
proof fn lemma_index_of_name_same_names(
    s0: Seq<(Seq<char>, TrackVariant)>,
    s1: Seq<(Seq<char>, TrackVariant)>,
    name: Seq<char>,
)
    requires
        s0.len() == s1.len(),
        forall|i: int| 0 <= i < s0.len() ==> #[trigger] s0[i].0 == #[trigger] s1[i].0,
    ensures
        index_of_name(s0, name) == index_of_name(s1, name),
{
    lemma_index_of_name_from_same_names(s0, s1, name, 0);
}

proof fn lemma_index_of_name_from_same_names(
    s0: Seq<(Seq<char>, TrackVariant)>,
    s1: Seq<(Seq<char>, TrackVariant)>,
    name: Seq<char>,
    i: int,
)
    requires
        0 <= i <= s0.len(),
        s0.len() == s1.len(),
        forall|i: int| 0 <= i < s0.len() ==> #[trigger] s0[i].0 == #[trigger] s1[i].0,
    ensures
        index_of_name_from(s0, name, i) == index_of_name_from(s1, name, i),
    decreases s0.len() - i,
{
    if i < s0.len() && s0[i].0 != name {
        lemma_index_of_name_from_same_names(s0, s1, name, i + 1);
    }
}

} // verus!
