//! Time-indexed keyframe clips with interpolation, looping and clamping.

use vstd::prelude::*;
use crate::errors::AnimError;
use crate::fixed::{
    spec_clamp, tdiv, clamp_i64, euclid_rem, mul_div, lemma_tdiv_multiples, FX_ONE, TIME_BOUND,
};
use crate::skeleton::Skeleton;
use crate::transform::Transform;
use vstd::arithmetic::div_mod::{
    lemma_div_is_ordered, lemma_div_pos_is_pos, lemma_small_mod, lemma_mod_add_multiples_vanish,
};
use vstd::arithmetic::mul::{lemma_mul_inequality, lemma_mul_nonnegative};

verus! {

/// One pose of a joint at a point of the clip's native time axis.
pub struct Keyframe<T: Transform> {
    pub time: i64,
    pub transform: T,
}

/// A keyframe track: strictly increasing times within the native duration,
/// all transforms well formed.
pub open spec fn track_wf<T: Transform>(track: Seq<Keyframe<T>>, dur: int) -> bool {
    &&& forall|k: int| 0 <= k < track.len() ==> 0 <= (#[trigger] track[k]).time <= dur
    &&& forall|k: int|
        0 <= k && k + 1 < track.len() ==> (#[trigger] track[k]).time < track[k + 1].time
    &&& forall|k: int| 0 <= k < track.len() ==> (#[trigger] track[k]).transform.wf()
}

/// A strictly sorted track is sorted across any index pair.
pub proof fn lemma_track_sorted<T: Transform>(track: Seq<Keyframe<T>>, dur: int, k1: int, k2: int)
    requires
        track_wf(track, dur),
        0 <= k1 < k2 < track.len(),
    ensures
        track[k1].time < track[k2].time,
    decreases k2 - k1,
{
    if k1 + 1 < k2 {
        lemma_track_sorted(track, dur, k1 + 1, k2);
    }
}

/// Index of the keyframe bracketing `nt` from below: the largest `k` with
/// `track[k].time <= nt`, or `-1` when `nt` comes before every keyframe.
pub open spec fn spec_track_index<T: Transform>(track: Seq<Keyframe<T>>, nt: int) -> int
    decreases track.len(),
{
    if track.len() == 0 {
        -1
    } else if track[track.len() - 1].time <= nt {
        track.len() - 1
    } else {
        spec_track_index(track.drop_last(), nt)
    }
}

/// Dropping the last keyframe keeps a track well formed.
proof fn lemma_drop_last_wf<T: Transform>(track: Seq<Keyframe<T>>, dur: int)
    requires
        track_wf(track, dur),
        track.len() > 0,
    ensures
        track_wf(track.drop_last(), dur),
{
    let tl = track.drop_last();
    assert forall|k: int| 0 <= k < tl.len() implies 0 <= (#[trigger] tl[k]).time <= dur by {
        assert(tl[k] == track[k]);
    }
    assert forall|k: int| 0 <= k && k + 1 < tl.len() implies (#[trigger] tl[k]).time < tl[k
        + 1].time by {
        assert(tl[k] == track[k]);
        assert(tl[k + 1] == track[k + 1]);
    }
    assert forall|k: int| 0 <= k < tl.len() implies (#[trigger] tl[k]).transform.wf() by {
        assert(tl[k] == track[k]);
    }
}

/// What the bracket index means: it brackets `nt`, and equals `-1` exactly
/// when `nt` comes before the first keyframe.
pub proof fn lemma_track_index_props<T: Transform>(track: Seq<Keyframe<T>>, dur: int, nt: int)
    requires
        track_wf(track, dur),
        track.len() > 0,
    ensures
        -1 <= spec_track_index(track, nt) < track.len(),
        spec_track_index(track, nt) >= 0 ==> track[spec_track_index(track, nt)].time <= nt,
        spec_track_index(track, nt) == -1 ==> nt < track[0].time,
        0 <= spec_track_index(track, nt) < track.len() - 1 ==> nt < track[spec_track_index(
            track,
            nt,
        ) + 1].time,
    decreases track.len(),
{
    let last = track.len() - 1;
    if track[last].time <= nt {
    } else {
        lemma_drop_last_wf(track, dur);
        let tl = track.drop_last();
        if track.len() == 1 {
        } else {
            lemma_track_index_props(tl, dur, nt);
            let k = spec_track_index(tl, nt);
            assert(spec_track_index(track, nt) == k);
            if k >= 0 {
                assert(tl[k] == track[k]);
                if k < tl.len() - 1 {
                    assert(tl[k + 1] == track[k + 1]);
                }
            } else {
                assert(tl[0] == track[0]);
            }
        }
    }
}

/// The bracket index is determined by any index that brackets `nt`.
pub proof fn lemma_track_index_at<T: Transform>(
    track: Seq<Keyframe<T>>,
    dur: int,
    nt: int,
    k: int,
)
    requires
        track_wf(track, dur),
        0 <= k < track.len(),
        track[k].time <= nt,
        k == track.len() - 1 || track[k + 1].time > nt,
    ensures
        spec_track_index(track, nt) == k,
    decreases track.len(),
{
    let last = track.len() - 1;
    if k == last {
    } else {
        if k + 1 < last {
            lemma_track_sorted(track, dur, k + 1, last);
        }
        assert(track[last].time > nt);
        lemma_drop_last_wf(track, dur);
        let tl = track.drop_last();
        assert(tl[k] == track[k]);
        if k < tl.len() - 1 {
            assert(tl[k + 1] == track[k + 1]);
        }
        lemma_track_index_at(tl, dur, nt, k);
    }
}

/// The interpolation fraction between two bracketing keyframe times stays
/// in the fraction range.
pub proof fn lemma_frac_range(t0: int, t1: int, nt: int)
    requires
        t0 <= nt < t1,
    ensures
        0 <= tdiv((nt - t0) * FX_ONE as int, t1 - t0) <= FX_ONE as int,
{
    let one = FX_ONE as int;
    let d = t1 - t0;
    let x = nt - t0;
    lemma_mul_nonnegative(x, one);
    lemma_mul_inequality(x, d, one);
    lemma_div_is_ordered(x * one, d * one, d);
    lemma_mul_nonnegative(d, one);
    lemma_tdiv_multiples(one, d);
    assert(d * one == one * d);
    assert(tdiv(one * d, d) == one);
    assert(x * one >= 0);
    assert(tdiv(x * one, d) == (x * one) / d);
    assert((d * one) / d == tdiv(d * one, d));
}

/// A pose from one track: the bind pose when the track is empty, the first
/// or last keyframe outside the keyframe range, and the interpolation of
/// the bracketing pair inside it.
pub open spec fn spec_sample_track<T: Transform>(track: Seq<Keyframe<T>>, bind: T, nt: int) -> T {
    if track.len() == 0 {
        bind
    } else {
        let k = spec_track_index(track, nt);
        if k < 0 {
            track[0].transform
        } else if k == track.len() - 1 {
            track[k].transform
        } else {
            let t0 = track[k].time as int;
            let t1 = track[k + 1].time as int;
            let frac = tdiv((nt - t0) * FX_ONE as int, t1 - t0);
            T::spec_interpolate(track[k].transform, track[k + 1].transform, frac)
        }
    }
}

/// Per-joint keyframe tracks with a declared duration and a loop flag.
///
/// Keyframe times live on the clip's native time axis, fixed at
/// construction; the declared `duration` rescales that axis at sampling
/// time, so clips of different native lengths can be normalized to a
/// common duration for blending.
pub struct AnimationClip<T: Transform> {
    pub tracks: Vec<Vec<Keyframe<T>>>,
    pub bind_poses: Vec<T>,
    pub native_duration: i64,
    pub duration: i64,
    pub looping: bool,
}

/// All tracks of a list are well formed for the given native duration.
pub open spec fn tracks_ok<T: Transform>(tracks: Seq<Vec<Keyframe<T>>>, dur: int) -> bool {
    forall|j: int| 0 <= j < tracks.len() ==> track_wf((#[trigger] tracks[j])@, dur)
}

impl<T: Transform> AnimationClip<T> {
    /// Validity: one track and one bind pose per joint, positive durations
    /// in the time range, and well-formed tracks and bind poses.
    pub open spec fn wf(self) -> bool {
        &&& self.tracks.len() == self.bind_poses.len()
        &&& 0 < self.native_duration <= TIME_BOUND
        &&& 0 < self.duration <= TIME_BOUND
        &&& tracks_ok(self.tracks@, self.native_duration as int)
        &&& forall|j: int| 0 <= j < self.bind_poses.len() ==> (#[trigger] self.bind_poses[j]).wf()
    }

    /// Number of joints covered.
    pub open spec fn spec_joint_count(self) -> int {
        self.tracks.len() as int
    }

    /// Query time folded into `[0, duration]`: wrapped when looping,
    /// clamped when not.
    pub open spec fn spec_wrap_time(self, t: int) -> int {
        if self.looping {
            t % (self.duration as int)
        } else {
            spec_clamp(t, 0, self.duration as int)
        }
    }

    /// The wrapped query time mapped onto the native time axis.
    pub open spec fn spec_native_time(self, t: int) -> int {
        tdiv(self.spec_wrap_time(t) * self.native_duration as int, self.duration as int)
    }

    /// The pose of joint `j` at query time `t`.
    pub open spec fn spec_sample(self, j: int, t: int) -> T {
        spec_sample_track(self.tracks[j]@, self.bind_poses[j], self.spec_native_time(t))
    }

    /// The wrapped time lies in `[0, duration]`, and the native time in
    /// `[0, native_duration]`.
    pub proof fn lemma_native_time_range(self, t: int)
        requires
            self.wf(),
        ensures
            0 <= self.spec_wrap_time(t) <= self.duration,
            0 <= self.spec_native_time(t) <= self.native_duration,
    {
        let dur = self.duration as int;
        let nat_d = self.native_duration as int;
        let w = self.spec_wrap_time(t);
        if self.looping {
            vstd::arithmetic::div_mod::lemma_mod_division_less_than_divisor(t, dur);
        }
        assert(0 <= w <= dur);
        lemma_mul_nonnegative(w, nat_d);
        lemma_mul_inequality(w, dur, nat_d);
        lemma_div_is_ordered(w * nat_d, dur * nat_d, dur);
        lemma_tdiv_multiples(nat_d, dur);
        assert(dur * nat_d == nat_d * dur);
        assert((dur * nat_d) / dur == nat_d);
        lemma_div_pos_is_pos(w * nat_d, dur);
    }

    /// The sampled pose is always well formed.
    pub proof fn lemma_sample_wf(self, j: int, t: int)
        requires
            self.wf(),
            0 <= j < self.spec_joint_count(),
        ensures
            self.spec_sample(j, t).wf(),
    {
        let track = self.tracks[j]@;
        let nt = self.spec_native_time(t);
        if track.len() == 0 {
        } else {
            lemma_track_index_props(track, self.native_duration as int, nt);
            let k = spec_track_index(track, nt);
            if k < 0 {
            } else if k == track.len() - 1 {
            } else {
                let t0 = track[k].time as int;
                let t1 = track[k + 1].time as int;
                lemma_track_sorted(track, self.native_duration as int, k, k + 1);
                lemma_frac_range(t0, t1, nt);
                let frac = tdiv((nt - t0) * FX_ONE as int, t1 - t0);
                T::lemma_interpolate_wf(track[k].transform, track[k + 1].transform, frac);
            }
        }
    }

    /// Build a clip over a skeleton's joints: one track per joint, a
    /// positive duration, strictly increasing keyframe times within it.
    /// The declared duration becomes the native duration; bind poses are
    /// copied from the skeleton for joints without keyframes.
    #[verifier::rlimit(60)]
    pub fn new(
        tracks: Vec<Vec<Keyframe<T>>>,
        skeleton: &Skeleton<T>,
        duration: i64,
        looping: bool,
    ) -> (r: Result<AnimationClip<T>, AnimError>)
        requires
            skeleton.wf(),
        ensures
            match r {
                Ok(c) => {
                    &&& 0 < duration <= TIME_BOUND
                    &&& tracks@.len() == skeleton.spec_joint_count()
                    &&& tracks_ok(tracks@, duration as int)
                    &&& c.tracks == tracks
                    &&& c.native_duration == duration
                    &&& c.duration == duration
                    &&& c.looping == looping
                    &&& c.bind_poses@.len() == skeleton.joints@.len()
                    &&& forall|j: int|
                        0 <= j < skeleton.joints@.len() ==> c.bind_poses@[j]
                            == (#[trigger] skeleton.joints@[j]).bind_pose
                    &&& c.wf()
                },
                Err(e) => {
                    if !(0 < duration <= TIME_BOUND) {
                        e == AnimError::InvalidDuration
                    } else {
                        &&& e == AnimError::IndexError
                        &&& (tracks@.len() != skeleton.spec_joint_count() || !tracks_ok(
                            tracks@,
                            duration as int,
                        ))
                    }
                },
            },
    {
        if duration <= 0 || duration > TIME_BOUND {
            return Err(AnimError::InvalidDuration);
        }
        let jc: usize = skeleton.joint_count();
        if tracks.len() != jc {
            return Err(AnimError::IndexError);
        }
        let mut j: usize = 0;
        while j < jc
            invariant
                jc == tracks.len(),
                j <= jc,
                0 < duration <= TIME_BOUND,
                jc == skeleton.spec_joint_count(),
                forall|j2: int| 0 <= j2 < j ==> track_wf((#[trigger] tracks[j2])@, duration as int),
            decreases jc - j,
        {
            let track: &Vec<Keyframe<T>> = &tracks[j];
            let m: usize = track.len();
            let mut k: usize = 0;
            while k < m
                invariant
                    m == track@.len(),
                    k <= m,
                    0 < duration <= TIME_BOUND,
                    jc == tracks.len(),
                    j < jc,
                    track@ == tracks[j as int]@,
                    forall|k2: int| 0 <= k2 < k ==> 0 <= (#[trigger] track@[k2]).time <= duration,
                    forall|k2: int|
                        0 <= k2 && k2 + 1 < k ==> (#[trigger] track@[k2]).time < track@[k2
                            + 1].time,
                    forall|k2: int| 0 <= k2 < k ==> (#[trigger] track@[k2]).transform.wf(),
                decreases m - k,
            {
                if track[k].time < 0 || track[k].time > duration {
                    proof {
                        assert(!(0 <= track@[k as int].time <= duration));
                        assert(!track_wf(tracks[j as int]@, duration as int));
                        assert(!tracks_ok(tracks@, duration as int));
                    }
                    return Err(AnimError::IndexError);
                }
                if k > 0 && track[k - 1].time >= track[k].time {
                    proof {
                        assert(track@[k as int - 1].time >= track@[k as int].time);
                        assert(!track_wf(tracks[j as int]@, duration as int));
                        assert(!tracks_ok(tracks@, duration as int));
                    }
                    return Err(AnimError::IndexError);
                }
                if !track[k].transform.check_wf() {
                    proof {
                        assert(!(track@[k as int].transform.wf()));
                        assert(!track_wf(tracks[j as int]@, duration as int));
                        assert(!tracks_ok(tracks@, duration as int));
                    }
                    return Err(AnimError::IndexError);
                }
                k = k + 1;
            }
            assert(track_wf(track@, duration as int));
            j = j + 1;
        }
        let mut bind_poses: Vec<T> = Vec::new();
        let mut j2: usize = 0;
        while j2 < jc
            invariant
                jc == skeleton.joints.len(),
                j2 <= jc,
                bind_poses@.len() == j2,
                skeleton.wf(),
                forall|i: int|
                    0 <= i < j2 ==> bind_poses@[i] == (#[trigger] skeleton.joints@[i]).bind_pose,
                forall|i: int| 0 <= i < j2 ==> (#[trigger] bind_poses@[i]).wf(),
            decreases jc - j2,
        {
            let jt = skeleton.joint(j2);
            match jt {
                Ok(joint) => {
                    bind_poses.push(joint.bind_pose);
                },
                Err(_) => {
                    proof {
                        assert(false);
                    }
                },
            }
            j2 = j2 + 1;
        }
        Ok(
            AnimationClip {
                tracks,
                bind_poses,
                native_duration: duration,
                duration,
                looping,
            },
        )
    }

    /// Number of joints covered.
    pub fn joint_count(&self) -> (r: usize)
        ensures
            r == self.spec_joint_count(),
    {
        self.tracks.len()
    }

    /// Override the declared duration, rescaling the sampling time axis
    /// proportionally. A non-positive or out-of-range duration is refused
    /// and leaves the clip unchanged.
    pub fn set_duration(&mut self, d: i64) -> (r: Result<(), AnimError>)
        requires
            old(self).wf(),
        ensures
            match r {
                Ok(()) => {
                    &&& 0 < d <= TIME_BOUND
                    &&& *final(self) == (AnimationClip { duration: d, ..*old(self) })
                    &&& final(self).wf()
                },
                Err(e) => {
                    &&& e == AnimError::InvalidDuration
                    &&& !(0 < d <= TIME_BOUND)
                    &&& *final(self) == *old(self)
                },
            },
    {
        if d <= 0 || d > TIME_BOUND {
            return Err(AnimError::InvalidDuration);
        }
        self.duration = d;
        Ok(())
    }

    /// The declared duration.
    pub fn duration(&self) -> (r: i64)
        ensures
            r == self.duration,
    {
        self.duration
    }

    /// Whether query times wrap around the duration.
    pub fn is_looping(&self) -> (r: bool)
        ensures
            r == self.looping,
    {
        self.looping
    }

    /// Loop wrap: sampling a looping clip is periodic in the duration, and
    /// any query time samples like its remainder modulo the duration.
    pub proof fn lemma_loop_wrap(self, j: int, t: int)
        requires
            self.wf(),
            self.looping,
        ensures
            self.spec_sample(j, t + self.duration) == self.spec_sample(j, t),
            self.spec_sample(j, t) == self.spec_sample(j, t % (self.duration as int)),
    {
        let dur = self.duration as int;
        lemma_mod_add_multiples_vanish(t, dur);
        assert((dur + t) % dur == t % dur);
        assert(self.spec_wrap_time(t + dur) == self.spec_wrap_time(t));
        vstd::arithmetic::div_mod::lemma_mod_division_less_than_divisor(t, dur);
        lemma_small_mod((t % dur) as nat, dur as nat);
        assert(self.spec_wrap_time(t % dur) == self.spec_wrap_time(t));
    }

    /// Clamping: a non-looping clip samples past its end like at the end,
    /// and before its start like at the start.
    pub proof fn lemma_clamp_ends(self, j: int, t: int)
        requires
            self.wf(),
            !self.looping,
        ensures
            t >= self.duration ==> self.spec_sample(j, t) == self.spec_sample(
                j,
                self.duration as int,
            ),
            t <= 0 ==> self.spec_sample(j, t) == self.spec_sample(j, 0),
    {
    }

    /// Duration rescale: a clip still on its native duration, given a new
    /// duration `d`, samples at `t` exactly like the unscaled clip at the
    /// proportional native time `t * native_duration / d`. In particular
    /// the interpolation fraction at each rescaled query is preserved.
    pub proof fn lemma_set_duration_rescale(self, d: i64, j: int, t: int)
        requires
            self.wf(),
            self.duration == self.native_duration,
            0 < d <= TIME_BOUND,
            0 <= t <= d,
            self.looping ==> t < d,
        ensures
            (AnimationClip { duration: d, ..self }).spec_sample(j, t) == self.spec_sample(
                j,
                tdiv(t * self.native_duration as int, d as int),
            ),
    {
        let nat_d = self.native_duration as int;
        let di = d as int;
        let c2 = AnimationClip { duration: d, ..self };
        if self.looping {
            lemma_small_mod(t as nat, d as nat);
        }
        assert(c2.spec_wrap_time(t) == t);
        let s = tdiv(t * nat_d, di);
        assert(c2.spec_native_time(t) == s);
        lemma_mul_nonnegative(t, nat_d);
        lemma_div_pos_is_pos(t * nat_d, di);
        lemma_mul_inequality(t, di, nat_d);
        lemma_div_is_ordered(t * nat_d, di * nat_d, di);
        lemma_tdiv_multiples(nat_d, di);
        assert(di * nat_d == nat_d * di);
        assert((di * nat_d) / di == nat_d);
        assert(0 <= s <= nat_d);
        if self.looping {
            vstd::arithmetic::mul::lemma_mul_strict_inequality(t, di, nat_d);
            assert(nat_d * t == t * nat_d);
            assert(nat_d * di == di * nat_d);
            vstd::arithmetic::div_mod::lemma_multiply_divide_lt(t * nat_d, di, nat_d);
            assert(s < nat_d);
            lemma_small_mod(s as nat, nat_d as nat);
        }
        assert(self.spec_wrap_time(s) == s);
        lemma_tdiv_multiples(s, nat_d);
        assert(self.spec_native_time(s) == s);
    }

    /// Sample the pose of one joint at a query time.
    pub fn sample(&self, joint: usize, time: i64) -> (r: Result<T, AnimError>)
        requires
            self.wf(),
            time > i64::MIN,
        ensures
            match r {
                Ok(p) => {
                    &&& joint < self.tracks.len()
                    &&& p == self.spec_sample(joint as int, time as int)
                    &&& p.wf()
                },
                Err(e) => joint >= self.tracks.len() && e == AnimError::IndexError,
            },
    {
        if joint >= self.tracks.len() {
            return Err(AnimError::IndexError);
        }
        proof {
            self.lemma_native_time_range(time as int);
        }
        let wrapped: i64 = if self.looping {
            euclid_rem(time, self.duration)
        } else {
            clamp_i64(time, 0, self.duration)
        };
        proof {
            lemma_mul_nonnegative(wrapped as int, self.native_duration as int);
            lemma_mul_inequality(wrapped as int, self.duration as int, self.native_duration as int);
        }
        let nt: i64 = mul_div(wrapped, self.native_duration, self.duration);
        let ghost nti = self.spec_native_time(time as int);
        assert(nt == nti);
        let track: &Vec<Keyframe<T>> = &self.tracks[joint];
        let m: usize = track.len();
        if m == 0 {
            return Ok(self.bind_poses[joint]);
        }
        proof {
            lemma_track_index_props(track@, self.native_duration as int, nti);
        }
        if nt < track[0].time {
            assert(spec_track_index(track@, nti) == -1) by {
                if spec_track_index(track@, nti) >= 0 {
                    assert(track@[spec_track_index(track@, nti)].time <= nti);
                    if spec_track_index(track@, nti) > 0 {
                        lemma_track_sorted(
                            track@,
                            self.native_duration as int,
                            0,
                            spec_track_index(track@, nti),
                        );
                    }
                }
            }
            return Ok(track[0].transform);
        }
        let mut k: usize = 0;
        while k + 1 < m && track[k + 1].time <= nt
            invariant
                m == track@.len(),
                k < m,
                track@[k as int].time <= nt,
                nt == nti,
            decreases m - k,
        {
            k = k + 1;
        }
        proof {
            lemma_track_index_at(track@, self.native_duration as int, nti, k as int);
        }
        if k + 1 == m {
            return Ok(track[k].transform);
        }
        let t0: i64 = track[k].time;
        let t1: i64 = track[k + 1].time;
        proof {
            lemma_track_sorted(track@, self.native_duration as int, k as int, k as int + 1);
            lemma_frac_range(t0 as int, t1 as int, nti);
        }
        let frac: i64 = mul_div(nt - t0, FX_ONE, t1 - t0);
        Ok(T::interpolate(&track[k].transform, &track[k + 1].transform, frac))
    }
}

} // verus!
