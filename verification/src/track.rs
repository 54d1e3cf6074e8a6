//! Tracks: time-ordered keyframe sequences and point-in-time sampling.
//!
//! A [`Track`] owns its keyframes sorted ascending by time; every mutation
//! re-establishes that order.  Sampling at a time yields a [`Sample`]: either
//! a definite value (exact keyframe hit, clamped hold at either boundary, or a
//! single-keyframe track) or an easing instruction for the bracketing segment.
//! Value kinds that can be eased by the library itself implement
//! [`EasableValue`], which turns a sample into a value; kinds whose blending
//! the host performs consume the [`Sample`] directly.

use vstd::prelude::*;
use vstd::multiset::Multiset;
use vstd::seq_lib::to_multiset_insert;

use crate::easing::{EasingFunction, EasingType};
use crate::keyframe::Keyframe;
use crate::time::TrackTime;

verus! {

/// The outcome of sampling a track at one point in time.
#[derive(Debug, Clone, Copy, PartialEq)]
pub enum Sample<T> {
    /// The track holds this value outright: the time hit a keyframe exactly,
    /// fell before the first or past the last keyframe (clamped hold), or the
    /// track has a single keyframe.
    Value(T),
    /// The time fell strictly inside the segment between two keyframes: the
    /// value is found by easing from `start` to `end`, `elapsed` into a
    /// segment of length `duration`, under the starting keyframe's easing
    /// selection.  `duration` is never zero.
    Ease {
        /// Value of the keyframe opening the segment.
        start: T,
        /// Value of the keyframe closing the segment.
        end: T,
        /// Offset of the queried time from the opening keyframe.
        elapsed: TrackTime,
        /// Length of the segment; always positive.
        duration: TrackTime,
        /// Curve family of the opening keyframe.
        function: EasingFunction,
        /// Curve direction of the opening keyframe.
        easing_type: EasingType,
    },
}

/// Whether the keyframe times of `s` are sorted ascending.
pub open spec fn times_sorted<T>(s: Seq<Keyframe<T>>) -> bool {
    forall|i: int, j: int|
        0 <= i < j < s.len() ==> #[trigger] s[i].time.millis <= #[trigger] s[j].time.millis
}

/// Whether no two keyframes of `s` share a time.
pub open spec fn times_distinct<T>(s: Seq<Keyframe<T>>) -> bool {
    forall|i: int, j: int|
        0 <= i < j < s.len() ==> #[trigger] s[i].time.millis != #[trigger] s[j].time.millis
}

/// The first index at or after `i` whose keyframe time is at or past `t`,
/// or `s.len()` if no such index exists.
pub open spec fn seek_from<T>(s: Seq<Keyframe<T>>, t: TrackTime, i: int) -> int
    decreases s.len() - i,
{
    if i < 0 || i >= s.len() {
        s.len() as int
    } else if s[i].time.millis >= t.millis {
        i
    } else {
        seek_from(s, t, i + 1)
    }
}

/// The first index whose keyframe time is at or past `t`, or `s.len()`.
pub open spec fn seek<T>(s: Seq<Keyframe<T>>, t: TrackTime) -> int {
    seek_from(s, t, 0)
}

/// The index where a keyframe at time `t` is inserted: after every keyframe
/// whose time is at or before `t`, so that a new keyframe lands behind
/// existing ones that share its time.
pub open spec fn place_from<T>(s: Seq<Keyframe<T>>, t: TrackTime, i: int) -> int
    decreases s.len() - i,
{
    if i < 0 || i >= s.len() {
        s.len() as int
    } else if s[i].time.millis > t.millis {
        i
    } else {
        place_from(s, t, i + 1)
    }
}

/// The insertion index for time `t`; see [`place_from`].
pub open spec fn place<T>(s: Seq<Keyframe<T>>, t: TrackTime) -> int {
    place_from(s, t, 0)
}

/// The keyframe sequence after inserting every element of `ks` from index `i`
/// on into `s`, one at a time, each at its sorted position.
pub open spec fn insert_all_from<T>(s: Seq<Keyframe<T>>, ks: Seq<Keyframe<T>>, i: int) -> Seq<
    Keyframe<T>,
>
    decreases ks.len() - i,
{
    if i < 0 || i >= ks.len() {
        s
    } else {
        insert_all_from(s.insert(place(s, ks[i].time), ks[i]), ks, i + 1)
    }
}

/// The keyframe sequence after inserting every element of `ks` into `s`.
pub open spec fn insert_all<T>(s: Seq<Keyframe<T>>, ks: Seq<Keyframe<T>>) -> Seq<Keyframe<T>> {
    insert_all_from(s, ks, 0)
}

/// The duration covered by the keyframes `s`: the time of the last keyframe,
/// or the zero sentinel if there is none.
pub open spec fn duration_of<T>(s: Seq<Keyframe<T>>) -> TrackTime {
    if s.len() > 0 {
        s.last().time
    } else {
        TrackTime { millis: 0 }
    }
}

/// What sampling the keyframes `s` at time `t` yields.
///
/// With a single keyframe its value holds at every time.  Otherwise: a time
/// before the first keyframe holds the first keyframe's value; a time that
/// hits a keyframe exactly yields that keyframe's value, the earliest such
/// keyframe winning; a time past the last keyframe holds the last keyframe's
/// value; and a time strictly inside a segment yields the easing instruction
/// for that segment, governed by the opening keyframe's easing selection.
pub open spec fn sample_of<T>(s: Seq<Keyframe<T>>, t: TrackTime) -> Sample<T>
    recommends
        s.len() > 0,
        times_sorted(s),
{
    if s.len() <= 1 {
        Sample::Value(s[0].value)
    } else if t.millis < s[0].time.millis {
        Sample::Value(s[0].value)
    } else {
        let k = seek(s, t);
        if k < s.len() && s[k].time.millis == t.millis {
            Sample::Value(s[k].value)
        } else if k == s.len() {
            Sample::Value(s[s.len() - 1].value)
        } else {
            Sample::Ease {
                start: s[k - 1].value,
                end: s[k].value,
                elapsed: TrackTime { millis: (t.millis - s[k - 1].time.millis) as u64 },
                duration: TrackTime {
                    millis: (s[k].time.millis - s[k - 1].time.millis) as u64,
                },
                function: s[k - 1].easing_function,
                easing_type: s[k - 1].easing_type,
            }
        }
    }
}

/// A value kind the library can ease between two keyframes by itself.
///
/// `ease_spec` names the value produced for a segment; `ease_between`
/// computes it.  Kinds whose blending needs host-side arithmetic do not
/// implement this; their tracks are consumed through [`Track::sample`].
pub trait EasableValue: Sized + Copy {
    /// The value this kind yields `elapsed` into a segment of length
    /// `duration` running from `self` to `next` under the given easing
    /// selection.
    spec fn ease_spec(
        self,
        next: Self,
        elapsed: TrackTime,
        duration: TrackTime,
        function: EasingFunction,
        easing_type: EasingType,
    ) -> Self;

    /// Computes the value named by `ease_spec`.  A segment never has zero
    /// duration and the elapsed time lies strictly inside it.
    fn ease_between(
        self,
        next: Self,
        elapsed: TrackTime,
        duration: TrackTime,
        function: EasingFunction,
        easing_type: EasingType,
    ) -> (r: Self)
        requires
            0 < elapsed.millis < duration.millis,
        ensures
            r == self.ease_spec(next, elapsed, duration, function, easing_type),
    ;
}

/// Booleans cannot be blended: a boolean track holds the opening keyframe's
/// value throughout each segment.
impl EasableValue for bool {
    open spec fn ease_spec(
        self,
        next: Self,
        elapsed: TrackTime,
        duration: TrackTime,
        function: EasingFunction,
        easing_type: EasingType,
    ) -> Self {
        self
    }

    fn ease_between(
        self,
        next: Self,
        elapsed: TrackTime,
        duration: TrackTime,
        function: EasingFunction,
        easing_type: EasingType,
    ) -> (r: Self) {
        self
    }
}

/// The value a sample denotes, for a kind the library can ease itself.
pub open spec fn eased_sample<T: EasableValue>(s: Sample<T>) -> T {
    match s {
        Sample::Value(v) => v,
        Sample::Ease { start, end, elapsed, duration, function, easing_type } => start.ease_spec(
            end,
            elapsed,
            duration,
            function,
            easing_type,
        ),
    }
}

/// A time-ordered sequence of keyframes of one value kind.
///
/// The keyframes are kept sorted ascending by time across every mutation;
/// duplicate times are permitted, and on an exact time query the keyframe
/// added first wins.
#[derive(Debug)]
pub struct Track<T> {
    keyframes: Vec<Keyframe<T>>,
}

impl<T> View for Track<T> {
    type V = Seq<Keyframe<T>>;

    closed spec fn view(&self) -> Seq<Keyframe<T>> {
        self.keyframes@
    }
}

impl<T> Default for Track<T> {
    /// An empty track.
    fn default() -> (t: Track<T>)
        ensures
            t@ == Seq::<Keyframe<T>>::empty(),
            t.wf(),
    {
        Track { keyframes: Vec::new() }
    }
}

impl<T> Track<T> {
    /// The track's well-formedness: keyframe times sorted ascending.  Every
    /// construction and mutation of a track establishes it.
    pub open spec fn wf(&self) -> bool {
        times_sorted(self@)
    }

    /// The keyframes, sorted ascending by time.
    pub fn get_keyframes(&self) -> (ks: &Vec<Keyframe<T>>)
        ensures
            ks@ == self@,
    {
        &self.keyframes
    }

    /// The keyframe at `index`, or `None` past the end.
    pub fn get_keyframe(&self, index: usize) -> (kf: Option<&Keyframe<T>>)
        ensures
            index < self@.len() ==> kf == Some(&self@[index as int]),
            index >= self@.len() ==> kf is None,
    {
        if index < self.keyframes.len() {
            Some(&self.keyframes[index])
        } else {
            None
        }
    }

    /// A mutable borrow of the keyframe at `index`, or `None` past the end.
    ///
    /// A caller that changes the keyframe's time must re-establish the
    /// track's well-formedness itself; the other fields are free to change.
    pub fn get_keyframe_mut(&mut self, index: usize) -> (r: Option<&mut Keyframe<T>>)
        ensures
            index < old(self)@.len() ==> r is Some && *r->0 == old(self)@[index as int]
                && final(self)@ == old(self)@.update(index as int, *final(r->0)),
            index >= old(self)@.len() ==> r is None && *final(self) == *old(self),
    {
        if index < self.keyframes.len() {
            Some(&mut self.keyframes[index])
        } else {
            None
        }
    }

    /// The track's duration: the time of its last keyframe, or the zero
    /// sentinel for an empty track.
    pub fn get_duration(&self) -> (d: TrackTime)
        ensures
            d == duration_of(self@),
    {
        let n = self.keyframes.len();
        if n > 0 {
            self.keyframes[n - 1].time
        } else {
            TrackTime::zero()
        }
    }

    /// Appends `keyframe` at its sorted position: behind every keyframe whose
    /// time is at or before its own, so that keyframes sharing a time keep
    /// their insertion order.
    pub fn add_keyframe(&mut self, keyframe: Keyframe<T>)
        requires
            old(self).wf(),
            old(self)@.len() < usize::MAX,
        ensures
            0 <= place(old(self)@, keyframe.time) <= old(self)@.len(),
            final(self)@ == old(self)@.insert(place(old(self)@, keyframe.time), keyframe),
            final(self)@.len() == old(self)@.len() + 1,
            final(self)@.to_multiset() == old(self)@.to_multiset().insert(keyframe),
            final(self).wf(),
    {
        let ghost s = self.keyframes@;
        let n = self.keyframes.len();
        let mut k: usize = 0;
        while k < n && self.keyframes[k].time.millis <= keyframe.time.millis
            invariant
                n == s.len(),
                k <= n,
                self.keyframes@ == s,
                place(s, keyframe.time) == place_from(s, keyframe.time, k as int),
            decreases n - k,
        {
            k = k + 1;
        }
        assert(place(s, keyframe.time) == k);
        self.keyframes.insert(k, keyframe);
        proof {
            lemma_place_props(s, keyframe.time);
            assert(self.keyframes@ == s.insert(k as int, keyframe));
            lemma_insert_sorted(s, keyframe, k as int);
            to_multiset_insert(s, k as int, keyframe);
        }
    }

    /// Restores the sorted order of the keyframes.  A track keeps its
    /// keyframes sorted across every mutation, so there is nothing left to
    /// re-establish; the operation is kept as part of the track interface
    /// and leaves the track unchanged.
    pub fn sort_keyframes(&mut self)
        requires
            old(self).wf(),
        ensures
            *final(self) == *old(self),
            final(self).wf(),
    {
    }
}

impl<T: Copy> Track<T> {
    /// Appends every keyframe of `keyframes` in turn, each at its sorted
    /// position.
    pub fn add_keyframes(&mut self, keyframes: Vec<Keyframe<T>>)
        requires
            old(self).wf(),
            old(self)@.len() + keyframes@.len() < usize::MAX,
        ensures
            final(self)@ == insert_all(old(self)@, keyframes@),
            final(self)@.to_multiset() == old(self)@.to_multiset().add(keyframes@.to_multiset()),
            final(self).wf(),
    {
        let ghost s0 = self.keyframes@;
        let ghost ks = keyframes@;
        let n = keyframes.len();
        let mut i: usize = 0;
        while i < n
            invariant
                n == ks.len(),
                i <= n,
                keyframes@ == ks,
                self.wf(),
                self@.len() == s0.len() + i,
                insert_all(s0, ks) == insert_all_from(self@, ks, i as int),
                s0.len() + ks.len() < usize::MAX,
            decreases n - i,
        {
            let ghost before = self.keyframes@;
            let kf = keyframes[i];
            self.add_keyframe(kf);
            proof {
                assert(insert_all_from(before, ks, i as int) == insert_all_from(
                    self@,
                    ks,
                    i as int + 1,
                ));
            }
            i = i + 1;
        }
        proof {
            lemma_insert_all_multiset(s0, ks);
        }
    }

    /// Samples the track at `time`.
    ///
    /// The track must have at least one keyframe; querying an empty track is
    /// a wiring bug on the caller's side.  The result either carries a
    /// keyframe value outright or instructs the caller to ease across the
    /// bracketing segment; see [`sample_of`] for the exact policy.
    pub fn sample(&self, time: TrackTime) -> (r: Sample<T>)
        requires
            self.wf(),
            self@.len() > 0,
        ensures
            r == sample_of(self@, time),
    {
        let ghost s = self.keyframes@;
        let n = self.keyframes.len();
        if n == 1 {
            return Sample::Value(self.keyframes[0].value);
        }
        if time.millis < self.keyframes[0].time.millis {
            return Sample::Value(self.keyframes[0].value);
        }
        let mut k: usize = 0;
        while k < n && self.keyframes[k].time.millis < time.millis
            invariant
                n == s.len(),
                k <= n,
                self.keyframes@ == s,
                seek(s, time) == seek_from(s, time, k as int),
            decreases n - k,
        {
            k = k + 1;
        }
        assert(seek(s, time) == k);
        proof {
            lemma_seek_from_props(s, time, 0);
        }
        if k < n && self.keyframes[k].time.millis == time.millis {
            Sample::Value(self.keyframes[k].value)
        } else if k == n {
            Sample::Value(self.keyframes[n - 1].value)
        } else {
            assert(k >= 1);
            let prev = &self.keyframes[k - 1];
            let next = &self.keyframes[k];
            assert(prev.time.millis < time.millis);
            Sample::Ease {
                start: prev.value,
                end: next.value,
                elapsed: time.since(&prev.time),
                duration: next.time.since(&prev.time),
                function: prev.easing_function,
                easing_type: prev.easing_type,
            }
        }
    }
}

impl<T: EasableValue> Track<T> {
    /// The value the track holds at `time`, for a kind the library can ease
    /// itself.
    ///
    /// The track must have at least one keyframe; querying an empty track is
    /// a wiring bug on the caller's side.
    pub fn get_value(&self, time: TrackTime) -> (v: T)
        requires
            self.wf(),
            self@.len() > 0,
        ensures
            v == eased_sample(sample_of(self@, time)),
    {
        match self.sample(time) {
            Sample::Value(v) => v,
            Sample::Ease { start, end, elapsed, duration, function, easing_type } => {
                proof {
                    lemma_sample_ease_bounds(self@, time);
                }
                start.ease_between(end, elapsed, duration, function, easing_type)
            },
        }
    }
}

/// Hold before the start: sampling at a time before the first keyframe
/// yields the first keyframe's value exactly, with no extrapolation.
pub proof fn lemma_sample_before_first<T>(s: Seq<Keyframe<T>>, t: TrackTime)
    requires
        times_sorted(s),
        s.len() > 0,
        t.millis < s[0].time.millis,
    ensures
        sample_of(s, t) == Sample::Value(s[0].value),
{
}

/// Clamped hold past the end: sampling at a time past the last keyframe
/// yields the last keyframe's value exactly.
pub proof fn lemma_sample_after_last<T>(s: Seq<Keyframe<T>>, t: TrackTime)
    requires
        times_sorted(s),
        s.len() > 0,
        t.millis > s.last().time.millis,
    ensures
        sample_of(s, t) == Sample::Value(s.last().value),
{
    if s.len() > 1 {
        lemma_seek_from_props(s, t, 0);
        let k = seek(s, t);
        if k < s.len() {
            assert(s[k].time.millis <= s[s.len() - 1].time.millis);
        }
    }
}

/// Clamped hold at and past the end: sampling at or past the last keyframe's
/// time yields the last keyframe's value exactly, provided no earlier
/// keyframe shares the last keyframe's time.  (With such a duplicate, a
/// query at exactly that time returns the keyframe added first instead.)
pub proof fn lemma_sample_at_or_after_last<T>(s: Seq<Keyframe<T>>, t: TrackTime)
    requires
        times_sorted(s),
        s.len() > 0,
        t.millis >= s.last().time.millis,
        forall|j: int|
            0 <= j < s.len() - 1 ==> #[trigger] s[j].time.millis != s.last().time.millis,
    ensures
        sample_of(s, t) == Sample::Value(s.last().value),
{
    if t.millis > s.last().time.millis {
        lemma_sample_after_last(s, t);
    } else {
        lemma_sample_at_keyframe(s, s.len() - 1);
    }
}

/// Exact hit: sampling at a keyframe's own time yields that keyframe's
/// stored value, with no blending; among keyframes sharing a time, the
/// earliest wins.
pub proof fn lemma_sample_at_keyframe<T>(s: Seq<Keyframe<T>>, i: int)
    requires
        times_sorted(s),
        0 <= i < s.len(),
        forall|j: int| 0 <= j < i ==> #[trigger] s[j].time.millis != s[i].time.millis,
    ensures
        sample_of(s, s[i].time) == Sample::Value(s[i].value),
{
    let t = s[i].time;
    if s.len() > 1 {
        assert(s[0].time.millis <= s[i].time.millis);
        lemma_seek_from_props(s, t, 0);
        let k = seek(s, t);
        assert(!(s[i].time.millis < t.millis));
        assert(k <= i);
        if k < i {
            assert(s[k].time.millis <= s[i].time.millis);
            assert(s[k].time.millis == t.millis);
        }
        assert(k == i);
    }
}

/// Sorted order with pairwise distinct times is unique: two tracks holding
/// the same keyframes in sorted order hold them in the same order, so adding
/// keyframes out of chronological order yields a track identical to one built
/// from the pre-sorted list, and every sample agrees.  (With two keyframes
/// sharing a time the claim fails: whichever was added first wins an exact
/// query.)
pub proof fn lemma_insertion_order_independent<T>(s1: Seq<Keyframe<T>>, s2: Seq<Keyframe<T>>)
    requires
        times_sorted(s1),
        times_sorted(s2),
        times_distinct(s1),
        s1.to_multiset() == s2.to_multiset(),
    ensures
        s1 == s2,
        forall|t: TrackTime| sample_of(s1, t) == sample_of(s2, t),
    decreases s1.len(),
{
    broadcast use vstd::seq_lib::group_to_multiset_ensures;

    assert(s1.len() == s1.to_multiset().len());
    assert(s2.len() == s2.to_multiset().len());
    assert(s1.len() == s2.len());
    if s1.len() > 0 {
        assert(s2.to_multiset().count(s2[0]) > 0);
        assert(s1.contains(s2[0]));
        let a = choose|a: int| 0 <= a < s1.len() && s1[a] == s2[0];
        assert(s1.to_multiset().count(s1[0]) > 0);
        assert(s2.contains(s1[0]));
        let b = choose|b: int| 0 <= b < s2.len() && s2[b] == s1[0];
        assert(s1[0].time.millis <= s1[a].time.millis);
        assert(s2[0].time.millis <= s2[b].time.millis);
        assert(s1[0].time.millis == s1[a].time.millis);
        if a != 0 {
            assert(s1[0].time.millis != s1[a].time.millis);
        }
        assert(s1[0] == s2[0]);
        let r1 = s1.remove(0);
        let r2 = s2.remove(0);
        assert(r1.to_multiset() == s1.to_multiset().remove(s1[0]));
        assert(r2.to_multiset() == s2.to_multiset().remove(s2[0]));
        assert(r1.to_multiset() == r2.to_multiset());
        assert(forall|i: int| 0 <= i < r1.len() ==> #[trigger] r1[i] == s1[i + 1]);
        assert(forall|i: int| 0 <= i < r2.len() ==> #[trigger] r2[i] == s2[i + 1]);
        assert(times_sorted(r1));
        assert(times_sorted(r2));
        assert(times_distinct(r1));
        lemma_insertion_order_independent(r1, r2);
        assert forall|i: int| 0 <= i < s1.len() implies s1[i] == s2[i] by {
            if i > 0 {
                assert(r1[i - 1] == s1[i]);
                assert(r2[i - 1] == s2[i]);
            }
        }
        assert(s1 =~= s2);
    } else {
        assert(s1 =~= s2);
    }
}

/// Building a track inserts exactly the given keyframes: the keyframes of
/// `insert_all(s, ks)` are those of `s` and those of `ks`, counted together.
pub proof fn lemma_insert_all_multiset<T>(s: Seq<Keyframe<T>>, ks: Seq<Keyframe<T>>)
    ensures
        insert_all(s, ks).to_multiset() == s.to_multiset().add(ks.to_multiset()),
{
    lemma_insert_all_from_multiset(s, ks, 0);
    assert(ks.subrange(0, ks.len() as int) == ks);
}

proof fn lemma_insert_all_from_multiset<T>(s: Seq<Keyframe<T>>, ks: Seq<Keyframe<T>>, i: int)
    requires
        0 <= i <= ks.len(),
    ensures
        insert_all_from(s, ks, i).to_multiset() =~= s.to_multiset().add(
            ks.subrange(i, ks.len() as int).to_multiset(),
        ),
    decreases ks.len() - i,
{
    broadcast use vstd::seq_lib::group_to_multiset_ensures;

    if i >= ks.len() {
        assert(ks.subrange(i, ks.len() as int) =~= Seq::<Keyframe<T>>::empty());
        assert(Seq::<Keyframe<T>>::empty().to_multiset() =~= Multiset::<Keyframe<T>>::empty());
    } else {
        let p = place(s, ks[i].time);
        lemma_place_props(s, ks[i].time);
        let s2 = s.insert(p, ks[i]);
        to_multiset_insert(s, p, ks[i]);
        lemma_insert_all_from_multiset(s2, ks, i + 1);
        let rest = ks.subrange(i + 1, ks.len() as int);
        let whole = ks.subrange(i, ks.len() as int);
        assert(whole =~= seq![ks[i]] + rest);
        vstd::seq_lib::lemma_multiset_commutative(seq![ks[i]], rest);
        assert(seq![ks[i]].to_multiset() =~= Multiset::<Keyframe<T>>::empty().insert(ks[i])) by {
            assert(seq![ks[i]] =~= Seq::<Keyframe<T>>::empty().push(ks[i]));
            assert(Seq::<Keyframe<T>>::empty().to_multiset() =~= Multiset::<
                Keyframe<T>,
            >::empty());
        }
    }
}

/// The first `seek(s, t)` keyframes lie strictly before `t`; the keyframe at
/// `seek(s, t)`, if any, lies at or past `t`.
proof fn lemma_seek_from_props<T>(s: Seq<Keyframe<T>>, t: TrackTime, i: int)
    requires
        0 <= i <= s.len(),
    ensures
        i <= seek_from(s, t, i) <= s.len(),
        forall|j: int|
            i <= j < seek_from(s, t, i) ==> #[trigger] s[j].time.millis < t.millis,
        seek_from(s, t, i) < s.len() ==> s[seek_from(s, t, i)].time.millis >= t.millis,
    decreases s.len() - i,
{
    if i < s.len() && s[i].time.millis < t.millis {
        lemma_seek_from_props(s, t, i + 1);
    }
}

/// The keyframes before `place(s, t)` lie at or before `t`; the keyframe at
/// `place(s, t)`, if any, lies strictly past `t`.
proof fn lemma_place_from_props<T>(s: Seq<Keyframe<T>>, t: TrackTime, i: int)
    requires
        0 <= i <= s.len(),
    ensures
        i <= place_from(s, t, i) <= s.len(),
        forall|j: int|
            i <= j < place_from(s, t, i) ==> #[trigger] s[j].time.millis <= t.millis,
        place_from(s, t, i) < s.len() ==> s[place_from(s, t, i)].time.millis > t.millis,
    decreases s.len() - i,
{
    if i < s.len() && s[i].time.millis <= t.millis {
        lemma_place_from_props(s, t, i + 1);
    }
}

/// See [`lemma_place_from_props`], starting from the front.
proof fn lemma_place_props<T>(s: Seq<Keyframe<T>>, t: TrackTime)
    ensures
        0 <= place(s, t) <= s.len(),
        forall|j: int| 0 <= j < place(s, t) ==> #[trigger] s[j].time.millis <= t.millis,
        place(s, t) < s.len() ==> s[place(s, t)].time.millis > t.millis,
{
    lemma_place_from_props(s, t, 0);
}

/// Inserting a keyframe at its place keeps the times sorted.
proof fn lemma_insert_sorted<T>(s: Seq<Keyframe<T>>, kf: Keyframe<T>, k: int)
    requires
        times_sorted(s),
        k == place(s, kf.time),
    ensures
        times_sorted(s.insert(k, kf)),
{
    lemma_place_props(s, kf.time);
    let s2 = s.insert(k, kf);
    assert forall|i: int, j: int| 0 <= i < j < s2.len() implies #[trigger] s2[i].time.millis
        <= #[trigger] s2[j].time.millis by {
        if i < k && j < k {
            assert(s2[i] == s[i] && s2[j] == s[j]);
        } else if i < k && j == k {
            assert(s2[i] == s[i]);
        } else if i < k && j > k {
            assert(s2[i] == s[i] && s2[j] == s[j - 1]);
            if j - 1 >= k {
                assert(s[j - 1].time.millis >= kf.time.millis);
            }
        } else if i == k && j > k {
            assert(s2[j] == s[j - 1]);
        } else {
            assert(s2[i] == s[i - 1] && s2[j] == s[j - 1]);
        }
    }
}

/// In the easing outcome of a sample, the elapsed time lies strictly inside
/// the segment, so the segment's duration is positive.
pub proof fn lemma_sample_ease_bounds<T>(s: Seq<Keyframe<T>>, t: TrackTime)
    requires
        times_sorted(s),
        s.len() > 0,
        sample_of(s, t) is Ease,
    ensures
        0 < sample_of(s, t)->elapsed.millis,
        sample_of(s, t)->elapsed.millis < sample_of(s, t)->duration.millis,
{
    lemma_seek_from_props(s, t, 0);
}

} // verus!
