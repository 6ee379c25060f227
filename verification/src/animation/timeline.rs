//! Keyframe tracks and their sampling.
//!
//! A track is a sequence of timed values. Sampling looks at the longest run
//! of leading keyframes that are not after the query time: with none of them
//! the field is unset, with all of them the last value is held, and
//! otherwise the two keyframes around the query time are blended.

use crate::animation::config::PropertyKeyframe;
use crate::animation::properties::{OptionalProperties, Vec3};
use crate::interpolate::{Fraction, Interpolate};
use vstd::prelude::*;

verus! {

/// A value that a field takes at time `t`.
#[derive(Clone, Copy, Debug, PartialEq, Eq)]
pub struct Keyframe<T> {
    pub t: i64,
    pub value: T,
}

/// The keyframes of one field.
#[derive(Clone, Debug, PartialEq, Eq)]
pub struct Timeline<T> {
    pub keyframes: Vec<Keyframe<T>>,
}

impl<T> View for Timeline<T> {
    type V = Seq<Keyframe<T>>;

    open spec fn view(&self) -> Seq<Keyframe<T>> {
        self.keyframes@
    }
}

/// The length of the longest run of leading keyframes none of which is
/// after `t`.
pub open spec fn lead<T>(kfs: Seq<Keyframe<T>>, t: i64) -> nat
    decreases kfs.len(),
{
    if kfs.len() == 0 || t < kfs[0].t {
        0
    } else {
        1 + lead(kfs.drop_first(), t)
    }
}

/// The keyframes are in ascending order of time.
pub open spec fn ordered<T>(kfs: Seq<Keyframe<T>>) -> bool {
    forall|i: int, j: int| 0 <= i <= j < kfs.len() ==> kfs[i].t <= kfs[j].t
}

/// How far `t` has come on the way from time `from` to time `to`.
pub open spec fn span(from: i64, to: i64, t: i64) -> Fraction {
    Fraction { num: (t - from) as u64, den: (to - from) as u64 }
}

/// The value of a track at time `t`.
///
/// Before the first keyframe, and on an empty track, the field is unset, so
/// that a source of lower precedence decides. From the last keyframe on its
/// value is held. In between, the value is the blend of the two keyframes
/// around `t`.
pub open spec fn sample<T: Interpolate>(kfs: Seq<Keyframe<T>>, t: i64) -> Option<T> {
    let n = lead(kfs, t) as int;
    if n == 0 {
        None
    } else if n == kfs.len() {
        Some(kfs[n - 1].value)
    } else {
        Some(kfs[n - 1].value.blend(kfs[n].value, span(kfs[n - 1].t, kfs[n].t, t)))
    }
}

/// `lead` is the one index that has only keyframes at or before `t` in front
/// of it and a keyframe after `t`, or the end of the track, at it.
pub proof fn lemma_lead_is<T>(kfs: Seq<Keyframe<T>>, t: i64, n: int)
    requires
        0 <= n <= kfs.len(),
        forall|j: int| 0 <= j < n ==> kfs[j].t <= t,
        n < kfs.len() ==> t < kfs[n].t,
    ensures
        lead(kfs, t) == n,
    decreases kfs.len(),
{
    if n > 0 {
        let rest = kfs.drop_first();
        assert(kfs[0].t <= t);
        assert forall|j: int| 0 <= j < n - 1 implies rest[j].t <= t by {
            assert(rest[j] == kfs[j + 1]);
        }
        lemma_lead_is(rest, t, n - 1);
    }
}

/// What `lead` counts: a run of keyframes at or before `t` that ends at the
/// first keyframe after `t`.
pub proof fn lemma_lead<T>(kfs: Seq<Keyframe<T>>, t: i64)
    ensures
        lead(kfs, t) <= kfs.len(),
        forall|j: int| 0 <= j < lead(kfs, t) ==> kfs[j].t <= t,
        lead(kfs, t) < kfs.len() ==> t < kfs[lead(kfs, t) as int].t,
    decreases kfs.len(),
{
    if !(kfs.len() == 0 || t < kfs[0].t) {
        let rest = kfs.drop_first();
        lemma_lead(rest, t);
        assert forall|j: int| 0 <= j < lead(kfs, t) implies kfs[j].t <= t by {
            if j > 0 {
                assert(kfs[j] == rest[j - 1]);
            }
        }
        if lead(kfs, t) < kfs.len() {
            assert(kfs[lead(kfs, t) as int] == rest[lead(rest, t) as int]);
        }
    }
}

/// The keyframes in ascending order of time, those of equal time in the
/// order in which they were given: each keyframe in turn goes behind every
/// keyframe already placed that is not after it.
pub open spec fn arrange<T>(kfs: Seq<Keyframe<T>>) -> Seq<Keyframe<T>>
    decreases kfs.len(),
{
    if kfs.len() == 0 {
        kfs
    } else {
        let placed = arrange(kfs.drop_last());
        placed.insert(lead(placed, kfs.last().t) as int, kfs.last())
    }
}

/// On an ordered track every keyframe behind the leading run is after `t`.
pub proof fn lemma_lead_splits<T>(kfs: Seq<Keyframe<T>>, t: i64)
    requires
        ordered(kfs),
    ensures
        forall|j: int| lead(kfs, t) <= j < kfs.len() ==> t < kfs[j].t,
{
    lemma_lead(kfs, t);
}

/// Arranged keyframes are in ascending order of time.
pub proof fn lemma_arrange_ordered<T>(kfs: Seq<Keyframe<T>>)
    ensures
        ordered(arrange(kfs)),
    decreases kfs.len(),
{
    if kfs.len() > 0 {
        let placed = arrange(kfs.drop_last());
        let k = kfs.last();
        let n = lead(placed, k.t) as int;
        lemma_arrange_ordered(kfs.drop_last());
        lemma_lead(placed, k.t);
        lemma_lead_splits(placed, k.t);
        let out = placed.insert(n, k);
        assert forall|i: int, j: int| 0 <= i <= j < out.len() implies out[i].t <= out[j].t by {
            if i < n {
                assert(out[i] == placed[i]);
            } else if i > n {
                assert(out[i] == placed[i - 1]);
            }
            if j < n {
                assert(out[j] == placed[j]);
            } else if j > n {
                assert(out[j] == placed[j - 1]);
            }
        }
    }
}

/// Arranging neither adds nor loses a keyframe.
pub proof fn lemma_arrange_permutes<T>(kfs: Seq<Keyframe<T>>)
    ensures
        arrange(kfs).to_multiset() == kfs.to_multiset(),
    decreases kfs.len(),
{
    broadcast use vstd::seq_lib::group_to_multiset_ensures;

    if kfs.len() > 0 {
        let front = kfs.drop_last();
        let placed = arrange(front);
        let k = kfs.last();
        let n = lead(placed, k.t) as int;
        lemma_arrange_permutes(front);
        lemma_lead(placed, k.t);
        vstd::seq_lib::to_multiset_insert(placed, n, k);
        assert(kfs == front.push(k));
    } else {
        assert(arrange(kfs) == kfs);
    }
}

/// Arranging is stable: the keyframes of any one time keep the order in
/// which they were given.
pub proof fn lemma_arrange_stable<T>(kfs: Seq<Keyframe<T>>, t: i64)
    ensures
        arrange(kfs).filter(|k: Keyframe<T>| k.t == t) == kfs.filter(|k: Keyframe<T>| k.t == t),
    decreases kfs.len(),
{
    let at = |k: Keyframe<T>| k.t == t;
    if kfs.len() > 0 {
        let front = kfs.drop_last();
        let placed = arrange(front);
        let k = kfs.last();
        let n = lead(placed, k.t) as int;
        lemma_arrange_stable(front, t);
        lemma_arrange_ordered(front);
        lemma_lead(placed, k.t);
        lemma_lead_splits(placed, k.t);
        let before = placed.take(n);
        let behind = placed.skip(n);
        assert(placed == before + behind);
        assert(placed.insert(n, k) == before + seq![k] + behind);
        assert(kfs == front + seq![k]);
        Seq::filter_distributes_over_add(before, behind, at);
        Seq::filter_distributes_over_add(before, seq![k], at);
        Seq::filter_distributes_over_add(before + seq![k], behind, at);
        Seq::filter_distributes_over_add(front, seq![k], at);
        if k.t == t {
            assert forall|j: int| 0 <= j < behind.len() implies !at(behind[j]) by {
                assert(behind[j] == placed[n + j]);
            }
            lemma_filter_none(behind, at);
            assert(before.filter(at) + behind.filter(at) == before.filter(at));
        } else {
            lemma_filter_none(seq![k], at);
            assert(before.filter(at) + seq![k].filter(at) == before.filter(at));
            assert(front.filter(at) + seq![k].filter(at) == front.filter(at));
        }
    } else {
        assert(arrange(kfs) == kfs);
    }
}

proof fn lemma_filter_none<A>(s: Seq<A>, pred: spec_fn(A) -> bool)
    requires
        forall|j: int| 0 <= j < s.len() ==> !pred(s[j]),
    ensures
        s.filter(pred) == Seq::<A>::empty(),
    decreases s.len(),
{
    reveal(Seq::filter);
    if s.len() > 0 {
        lemma_filter_none(s.drop_last(), pred);
    }
}

impl<T> Default for Timeline<T> {
    /// A track without keyframes.
    fn default() -> (r: Self)
        ensures
            r@ == Seq::<Keyframe<T>>::empty(),
    {
        Timeline { keyframes: Vec::new() }
    }
}

impl<T: Copy> Timeline<T> {
    /// A track without keyframes.
    pub fn new() -> (r: Self)
        ensures
            r@ == Seq::<Keyframe<T>>::empty(),
    {
        Timeline { keyframes: Vec::new() }
    }

    /// The number of leading keyframes none of which is after `t`.
    fn lead_index(keyframes: &Vec<Keyframe<T>>, t: i64) -> (n: usize)
        ensures
            n == lead(keyframes@, t),
    {
        let len = keyframes.len();
        let mut i: usize = 0;
        while i < len && keyframes[i].t <= t
            invariant
                i <= len,
                len == keyframes.len(),
                forall|j: int| 0 <= j < i ==> keyframes[j].t <= t,
            decreases len - i,
        {
            i += 1;
        }
        proof {
            lemma_lead_is(keyframes@, t, i as int);
        }
        i
    }

    /// Puts the keyframes in ascending order of time, keeping the given
    /// order among keyframes of equal time.
    pub fn sort(&mut self)
        ensures
            final(self)@ == arrange(old(self)@),
            ordered(final(self)@),
            final(self)@.to_multiset() == old(self)@.to_multiset(),
    {
        let ghost given = self.keyframes@;
        let len = self.keyframes.len();
        let mut placed: Vec<Keyframe<T>> = Vec::new();
        let mut i: usize = 0;
        while i < len
            invariant
                i <= len,
                len == self.keyframes.len(),
                self.keyframes@ == given,
                placed@ == arrange(given.take(i as int)),
            decreases len - i,
        {
            let keyframe = self.keyframes[i];
            proof {
                assert(given.take(i + 1).drop_last() == given.take(i as int));
                assert(given.take(i + 1).last() == keyframe);
                lemma_lead(placed@, keyframe.t);
            }
            let at = Self::lead_index(&placed, keyframe.t);
            placed.insert(at, keyframe);
            i += 1;
        }
        proof {
            assert(given.take(len as int) == given);
            lemma_arrange_ordered(given);
            lemma_arrange_permutes(given);
        }
        self.keyframes = placed;
    }
}

impl<T: Interpolate + Copy> Timeline<T> {
    /// The value of the track at time `t`.
    pub fn get(&self, t: i64) -> (r: Option<T>)
        ensures
            r == sample(self@, t),
    {
        let n = Self::lead_index(&self.keyframes, t);
        proof {
            lemma_lead(self@, t);
        }
        if n == 0 {
            None
        } else if n == self.keyframes.len() {
            Some(self.keyframes[n - 1].value)
        } else {
            let last = &self.keyframes[n - 1];
            let next = &self.keyframes[n];
            let frac = Fraction {
                num: (t as i128 - last.t as i128) as u64,
                den: (next.t as i128 - last.t as i128) as u64,
            };
            Some(last.value.interpolate(&next.value, frac))
        }
    }
}

/// Before the time of its first keyframe a track gives no value.
pub proof fn lemma_sample_before_first<T: Interpolate>(kfs: Seq<Keyframe<T>>, t: i64)
    requires
        0 < kfs.len(),
        t < kfs[0].t,
    ensures
        sample(kfs, t) is None,
{
    lemma_lead_is(kfs, t, 0);
}

/// On an ordered track, sampling at the time of a keyframe that no
/// keyframe of the same time follows yields that keyframe's value exactly.
pub proof fn lemma_sample_at_keyframe<T: Interpolate>(kfs: Seq<Keyframe<T>>, i: int)
    requires
        ordered(kfs),
        0 <= i < kfs.len(),
        i + 1 < kfs.len() ==> kfs[i].t < kfs[i + 1].t,
    ensures
        sample(kfs, kfs[i].t) == Some(kfs[i].value),
{
    let t = kfs[i].t;
    lemma_lead_is(kfs, t, i + 1);
    if i + 1 < kfs.len() {
        kfs[i].value.lemma_blend_start(kfs[i + 1].value, span(t, kfs[i + 1].t, t));
    }
}

/// On an ordered track, sampling at or after the time of the last keyframe
/// yields the last keyframe's value, however late the time.
pub proof fn lemma_sample_holds_last<T: Interpolate>(kfs: Seq<Keyframe<T>>, t: i64)
    requires
        ordered(kfs),
        0 < kfs.len(),
        kfs.last().t <= t,
    ensures
        sample(kfs, t) == Some(kfs.last().value),
{
    lemma_lead_is(kfs, t, kfs.len() as int);
}

/// On an ordered track of scalars, between two neighbouring keyframes with
/// rising values the sampled value does not fall as time goes on, and it
/// never exceeds the value sampled at the end of the interval. The later
/// keyframe must not share its time with the keyframe behind it.
pub proof fn lemma_sample_monotone(kfs: Seq<Keyframe<i64>>, i: int, t1: i64, t2: i64)
    requires
        ordered(kfs),
        0 <= i,
        i + 1 < kfs.len(),
        i + 2 < kfs.len() ==> kfs[i + 1].t < kfs[i + 2].t,
        kfs[i].t <= t1 < t2 <= kfs[i + 1].t,
        kfs[i].value <= kfs[i + 1].value,
    ensures
        sample(kfs, t1) is Some,
        sample(kfs, t2) is Some,
        sample(kfs, kfs[i + 1].t) == Some(kfs[i + 1].value),
        sample(kfs, t1).unwrap() <= sample(kfs, t2).unwrap() <= kfs[i + 1].value,
{
    let a = kfs[i].value as int;
    let b = kfs[i + 1].value as int;
    let from = kfs[i].t;
    let to = kfs[i + 1].t;
    let den = to - from;
    lemma_sample_at_keyframe(kfs, i + 1);
    lemma_lead_is(kfs, t1, i + 1);
    crate::interpolate::lemma_lerp_bounds(a, b, t1 - from, den);
    if t2 < to {
        lemma_lead_is(kfs, t2, i + 1);
        crate::interpolate::lemma_lerp_bounds(a, b, t2 - from, den);
        crate::interpolate::lemma_lerp_monotone(a, b, t1 - from, t2 - from, den);
    }
}

/// A keyframe of one field, where the authored keyframe sets that field.
pub open spec fn keyed<T>(t: i64, value: Option<T>) -> Option<Keyframe<T>> {
    match value {
        Some(value) => Some(Keyframe { t, value }),
        None => None,
    }
}

fn key<T>(t: i64, value: Option<T>) -> (r: Option<Keyframe<T>>)
    ensures
        r == keyed(t, value),
{
    match value {
        Some(value) => Some(Keyframe { t, value }),
        None => None,
    }
}

/// What an authored keyframe contributes to the camera position track.
pub open spec fn camera_pos_of() -> spec_fn(PropertyKeyframe) -> Option<Keyframe<Vec3>> {
    |k: PropertyKeyframe| keyed(k.t, k.properties.camera_pos)
}

/// What an authored keyframe contributes to the camera direction track.
pub open spec fn camera_dir_of() -> spec_fn(PropertyKeyframe) -> Option<Keyframe<Vec3>> {
    |k: PropertyKeyframe| keyed(k.t, k.properties.camera_dir)
}

/// What an authored keyframe contributes to the scale track.
pub open spec fn scale_of() -> spec_fn(PropertyKeyframe) -> Option<Keyframe<i64>> {
    |k: PropertyKeyframe| keyed(k.t, k.properties.scale)
}

/// What an authored keyframe contributes to the frame track.
pub open spec fn frame_of() -> spec_fn(PropertyKeyframe) -> Option<Keyframe<usize>> {
    |k: PropertyKeyframe| keyed(k.t, k.properties.frame)
}

/// What an authored keyframe contributes to the progress track.
pub open spec fn progress_of() -> spec_fn(PropertyKeyframe) -> Option<Keyframe<i64>> {
    |k: PropertyKeyframe| keyed(k.t, k.properties.progress)
}

/// What an authored keyframe contributes to the progress angle track.
pub open spec fn progress_angle_of() -> spec_fn(PropertyKeyframe) -> Option<Keyframe<i64>> {
    |k: PropertyKeyframe| keyed(k.t, k.properties.progress_angle)
}

/// One track per animatable field.
#[derive(Clone, Debug, PartialEq, Eq)]
pub struct PropertiesTimeline {
    pub camera_pos: Timeline<Vec3>,
    pub camera_dir: Timeline<Vec3>,
    pub scale: Timeline<i64>,
    pub frame: Timeline<usize>,
    pub progress: Timeline<i64>,
    pub progress_angle: Timeline<i64>,
}

fn push_some<T>(track: &mut Vec<Keyframe<T>>, keyframe: Option<Keyframe<T>>)
    ensures
        final(track)@ == old(track)@ + (match keyframe {
            Some(k) => seq![k],
            None => Seq::empty(),
        }),
{
    match keyframe {
        Some(k) => {
            track.push(k);
            assert(track@ == old(track)@ + seq![k]);
        },
        None => {
            assert(track@ == old(track)@ + Seq::<Keyframe<T>>::empty());
        },
    }
}

impl PropertiesTimeline {
    /// Every track is in ascending order of time.
    pub open spec fn wf(&self) -> bool {
        &&& ordered(self.camera_pos@)
        &&& ordered(self.camera_dir@)
        &&& ordered(self.scale@)
        &&& ordered(self.frame@)
        &&& ordered(self.progress@)
        &&& ordered(self.progress_angle@)
    }

    /// Each track holds, arranged by time, the authored keyframes that set
    /// its field.
    pub open spec fn built_from(&self, kfs: Seq<PropertyKeyframe>) -> bool {
        &&& self.camera_pos@ == arrange(kfs.filter_map(camera_pos_of()))
        &&& self.camera_dir@ == arrange(kfs.filter_map(camera_dir_of()))
        &&& self.scale@ == arrange(kfs.filter_map(scale_of()))
        &&& self.frame@ == arrange(kfs.filter_map(frame_of()))
        &&& self.progress@ == arrange(kfs.filter_map(progress_of()))
        &&& self.progress_angle@ == arrange(kfs.filter_map(progress_angle_of()))
    }

    /// The state that the tracks give at time `t`, field by field.
    pub open spec fn sampled(&self, t: i64) -> OptionalProperties {
        OptionalProperties {
            camera_pos: sample(self.camera_pos@, t),
            camera_dir: sample(self.camera_dir@, t),
            scale: sample(self.scale@, t),
            frame: sample(self.frame@, t),
            progress: sample(self.progress@, t),
            progress_angle: sample(self.progress_angle@, t),
        }
    }

    /// Routes each field that an authored keyframe sets into the track of
    /// that field, then puts every track in order of time. The keyframes may
    /// be given in any order.
    pub fn new(keyframes: &[PropertyKeyframe]) -> (r: Self)
        ensures
            r.built_from(keyframes@),
            r.wf(),
    {
        let mut camera_pos: Vec<Keyframe<Vec3>> = Vec::new();
        let mut camera_dir: Vec<Keyframe<Vec3>> = Vec::new();
        let mut scale: Vec<Keyframe<i64>> = Vec::new();
        let mut frame: Vec<Keyframe<usize>> = Vec::new();
        let mut progress: Vec<Keyframe<i64>> = Vec::new();
        let mut progress_angle: Vec<Keyframe<i64>> = Vec::new();
        let len = keyframes.len();
        let mut i: usize = 0;
        while i < len
            invariant
                i <= len,
                len == keyframes@.len(),
                camera_pos@ == keyframes@.take(i as int).filter_map(camera_pos_of()),
                camera_dir@ == keyframes@.take(i as int).filter_map(camera_dir_of()),
                scale@ == keyframes@.take(i as int).filter_map(scale_of()),
                frame@ == keyframes@.take(i as int).filter_map(frame_of()),
                progress@ == keyframes@.take(i as int).filter_map(progress_of()),
                progress_angle@ == keyframes@.take(i as int).filter_map(progress_angle_of()),
            decreases len - i,
        {
            let keyframe = keyframes[i];
            let t = keyframe.t;
            proof {
                keyframes@.lemma_filter_map_take_succ(camera_pos_of(), i as int);
                keyframes@.lemma_filter_map_take_succ(camera_dir_of(), i as int);
                keyframes@.lemma_filter_map_take_succ(scale_of(), i as int);
                keyframes@.lemma_filter_map_take_succ(frame_of(), i as int);
                keyframes@.lemma_filter_map_take_succ(progress_of(), i as int);
                keyframes@.lemma_filter_map_take_succ(progress_angle_of(), i as int);
            }
            push_some(&mut camera_dir, key(t, keyframe.properties.camera_dir));
            push_some(&mut camera_pos, key(t, keyframe.properties.camera_pos));
            push_some(&mut scale, key(t, keyframe.properties.scale));
            push_some(&mut frame, key(t, keyframe.properties.frame));
            push_some(&mut progress, key(t, keyframe.properties.progress));
            push_some(&mut progress_angle, key(t, keyframe.properties.progress_angle));
            i += 1;
        }
        assert(keyframes@.take(len as int) == keyframes@);
        let mut timeline = PropertiesTimeline {
            camera_pos: Timeline { keyframes: camera_pos },
            camera_dir: Timeline { keyframes: camera_dir },
            scale: Timeline { keyframes: scale },
            frame: Timeline { keyframes: frame },
            progress: Timeline { keyframes: progress },
            progress_angle: Timeline { keyframes: progress_angle },
        };
        timeline.camera_dir.sort();
        timeline.camera_pos.sort();
        timeline.scale.sort();
        timeline.frame.sort();
        timeline.progress.sort();
        timeline.progress_angle.sort();
        timeline
    }

    /// Samples every track at time `t`; a field whose track gives no value
    /// is absent.
    pub fn get(&self, t: i64) -> (r: OptionalProperties)
        ensures
            r == self.sampled(t),
    {
        OptionalProperties {
            camera_pos: self.camera_pos.get(t),
            camera_dir: self.camera_dir.get(t),
            scale: self.scale.get(t),
            frame: self.frame.get(t),
            progress: self.progress.get(t),
            progress_angle: self.progress_angle.get(t),
        }
    }
}

impl Default for PropertiesTimeline {
    fn default() -> (r: Self)
        ensures
            r.built_from(Seq::empty()),
            r.wf(),
    {
        PropertiesTimeline {
            camera_pos: Timeline::new(),
            camera_dir: Timeline::new(),
            scale: Timeline::new(),
            frame: Timeline::new(),
            progress: Timeline::new(),
            progress_angle: Timeline::new(),
        }
    }
}

} // verus!
