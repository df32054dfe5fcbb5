//! The GPU-resident form of a point-cloud asset and the animation seek
//! state machine.
//!
//! An animated prepared asset owns two equally sized storage buffers. Each
//! is modeled as a leading interpolation scalar followed by one displacement
//! per point. The buffer currently in the "previous" role holds the
//! displacements the points are transitioning away from; the "next" role
//! holds the displacements of the keyframe being entered, together with the
//! interpolation scalar the GPU reads. A seek swaps the roles (an index
//! flip, never a data copy) and rewrites only what the destination demands.

use vstd::prelude::*;

use crate::numeric::Fraction;
use crate::point_cloud::{
    animation_wf, frames_match_points, times_strictly_increasing, Displacement, Keyframe,
    PointCloudAsset, ScaleBits,
};

verus! {

/// Model of one animation storage buffer: the leading interpolation scalar
/// and the flat displacement array behind it.
#[derive(Clone, Debug)]
pub struct AnimationBuffer {
    pub interpolation: Fraction,
    pub data: Vec<Displacement>,
}

/// Ghost form of an animation buffer.
#[verifier::ext_equal]
pub ghost struct BufferModel {
    pub interpolation: Fraction,
    pub data: Seq<Displacement>,
}

impl View for AnimationBuffer {
    type V = BufferModel;

    open spec fn view(&self) -> BufferModel {
        BufferModel { interpolation: self.interpolation, data: self.data@ }
    }
}

/// The animation half of a prepared asset: the source keyframes, the two
/// buffers, the single-bit role index, and the seek position.
#[derive(Clone, Debug)]
pub struct PreparedAnimation {
    pub keyframes: Vec<Keyframe>,
    pub buffer_a: AnimationBuffer,
    pub buffer_b: AnimationBuffer,
    /// True when `buffer_b` currently plays the "next" role.
    pub next_is_b: bool,
    /// The keyframe the animation is transitioning into.
    pub current_frame: usize,
    /// The seek position, wrapped into `[0, duration)`, in milliseconds.
    pub animation_time_ms: u64,
    /// The start of the current frame's window, in milliseconds.
    pub frame_start_ms: u64,
}

/// Ghost form of the animation state. The physical role bit is abstracted
/// away: `prev` and `next` name the buffers by their current roles.
#[verifier::ext_equal]
pub ghost struct AnimationModel {
    pub frames: Seq<Keyframe>,
    pub current: int,
    pub time_ms: int,
    pub start_ms: int,
    pub prev: BufferModel,
    pub next: BufferModel,
}

impl View for PreparedAnimation {
    type V = AnimationModel;

    open spec fn view(&self) -> AnimationModel {
        AnimationModel {
            frames: self.keyframes@,
            current: self.current_frame as int,
            time_ms: self.animation_time_ms as int,
            start_ms: self.frame_start_ms as int,
            prev: if self.next_is_b { self.buffer_a@ } else { self.buffer_b@ },
            next: if self.next_is_b { self.buffer_b@ } else { self.buffer_a@ },
        }
    }
}

/// The start of frame `i`'s time window: the previous frame's timestamp,
/// or zero for the first frame.
pub open spec fn spec_start(frames: Seq<Keyframe>, i: int) -> int {
    if i == 0 {
        0
    } else {
        frames[i - 1].time_ms as int
    }
}

/// Frame `i` is the one whose window `[spec_start(i), frames[i].time_ms)`
/// contains `t`.
pub open spec fn is_target_frame(frames: Seq<Keyframe>, t: u64, i: int) -> bool {
    &&& 0 <= i < frames.len()
    &&& (t as int) < frames[i].time_ms
    &&& (i > 0 ==> frames[i - 1].time_ms <= t)
}

/// The frame whose window contains `t`: the least index whose timestamp
/// exceeds `t`.
pub open spec fn frame_of(frames: Seq<Keyframe>, t: u64) -> int {
    choose|i: int| is_target_frame(frames, t, i)
}

/// For any `t` below the last timestamp some frame's window contains `t`.
pub proof fn lemma_target_frame_exists(frames: Seq<Keyframe>, t: u64)
    requires
        frames.len() > 0,
        times_strictly_increasing(frames),
        t < frames.last().time_ms,
    ensures
        is_target_frame(frames, t, frame_of(frames, t)),
    decreases frames.len(),
{
    if t < frames[0].time_ms {
        assert(is_target_frame(frames, t, 0));
    } else {
        let sub = frames.skip(1);
        assert(frames.len() >= 2);
        assert(times_strictly_increasing(sub)) by {
            assert(forall|i: int, j: int|
                0 <= i < j < sub.len() ==> sub[i].time_ms < sub[j].time_ms) by {
                assert(forall|i: int| 0 <= i < sub.len() ==> sub[i] == frames[i + 1]);
            }
        }
        assert(sub.last() == frames.last());
        lemma_target_frame_exists(sub, t);
        let i = frame_of(sub, t);
        assert(sub[i] == frames[i + 1]);
        if i > 0 {
            assert(sub[i - 1] == frames[i]);
        }
        assert(is_target_frame(frames, t, i + 1));
        assert(is_target_frame(frames, t, frame_of(frames, t)));
    }
}

/// The window containing `t` is unique.
pub proof fn lemma_target_frame_unique(frames: Seq<Keyframe>, t: u64, i: int, j: int)
    requires
        times_strictly_increasing(frames),
        is_target_frame(frames, t, i),
        is_target_frame(frames, t, j),
    ensures
        i == j,
{
    if i < j {
        assert(frames[i].time_ms <= frames[j - 1].time_ms);
    }
    if j < i {
        assert(frames[j].time_ms <= frames[i - 1].time_ms);
    }
}

/// A sequence of `n` zero displacements, as a freshly created buffer holds.
pub open spec fn zero_data(n: int) -> Seq<Displacement> {
    Seq::new(n as nat, |i: int| Displacement { x: 0, y: 0, z: 0 })
}

/// Builds `n` zero displacements.
pub fn zero_displacements(n: usize) -> (r: Vec<Displacement>)
    ensures
        r@ == zero_data(n as int),
{
    let mut r: Vec<Displacement> = Vec::new();
    let mut i: usize = 0;
    while i < n
        invariant
            i <= n,
            r@ == zero_data(i as int),
        decreases n - i,
    {
        r.push(Displacement::zero());
        proof {
            assert(r@ =~= zero_data(i + 1));
        }
        i = i + 1;
    }
    r
}

/// Copies a displacement array, element for element.
pub fn copy_displacements(src: &Vec<Displacement>) -> (r: Vec<Displacement>)
    ensures
        r@ == src@,
{
    let mut r: Vec<Displacement> = Vec::new();
    let mut i: usize = 0;
    while i < src.len()
        invariant
            i <= src@.len(),
            r@ == src@.subrange(0, i as int),
        decreases src@.len() - i,
    {
        r.push(src[i]);
        proof {
            assert(r@ =~= src@.subrange(0, i + 1));
        }
        i = i + 1;
    }
    proof {
        assert(r@ =~= src@);
    }
    r
}

/// Well-formedness of an animation state: a well-formed keyframe track,
/// equally sized buffers matching the point count, a current frame in
/// range whose window start is the previous frame's timestamp, and valid
/// interpolation scalars.
pub open spec fn model_wf(m: AnimationModel) -> bool {
    &&& m.frames.len() > 0
    &&& times_strictly_increasing(m.frames)
    &&& m.frames.last().time_ms > 0
    &&& frames_match_points(m.frames, m.next.data.len() as int)
    &&& m.prev.data.len() == m.next.data.len()
    &&& 0 <= m.current < m.frames.len()
    &&& m.start_ms == spec_start(m.frames, m.current)
    &&& 0 <= m.time_ms
    &&& m.prev.interpolation.wf()
    &&& m.next.interpolation.wf()
}

/// What a seek did to the GPU buffers.
#[derive(Clone, Copy, PartialEq, Eq, Structural, Debug)]
pub enum SeekEffect {
    /// The seek stayed inside the current frame's window: only the
    /// interpolation scalar of the "next" buffer was rewritten.
    ScalarOnly,
    /// The buffer roles were swapped. The flags say which displacement
    /// arrays were uploaded anew: `wrote_prev_data` for the buffer that
    /// became "previous", `wrote_next_data` for the one that became "next".
    Swapped { wrote_prev_data: bool, wrote_next_data: bool },
}

/// The full functional model of a seek. The target time is wrapped into
/// `[0, duration)`. If it falls inside the current frame's window, only the
/// interpolation scalar of the "next" buffer is recomputed. Otherwise the
/// destination frame `f` is the one whose window contains the wrapped time;
/// the buffer in the "next" role is first rewritten with the displacements
/// of frame `f - 1` (zeros for `f == 0`) unless the destination is the
/// immediate successor, the roles are swapped, the new "next" buffer is
/// rewritten with frame `f`'s displacements unless the destination is the
/// immediate predecessor (whose data the swap already put there), and the
/// new interpolation scalar is written. The scalar is an exact rational
/// proved to lie in `[0, 1)`, so the clamping a floating-point
/// implementation needs against drift never fires here. A single-keyframe
/// track degenerates: its one window covers the whole timeline, every seek
/// takes the cheap path with no swap, and the scalar is held constant at
/// one (`num == den`).
pub open spec fn spec_seek(m: AnimationModel, t: u64) -> AnimationModel {
    let dur = m.frames.last().time_ms as int;
    let tw = (t as int) % dur;
    let cur_end = m.frames[m.current].time_ms as int;
    if m.start_ms <= tw < cur_end {
        AnimationModel {
            time_ms: tw,
            next: BufferModel {
                interpolation: Fraction {
                    num: if m.frames.len() == 1 {
                        (cur_end - m.start_ms) as u64
                    } else {
                        (tw - m.start_ms) as u64
                    },
                    den: (cur_end - m.start_ms) as u64,
                },
                data: m.next.data,
            },
            ..m
        }
    } else {
        let f = frame_of(m.frames, tw as u64);
        let new_start = spec_start(m.frames, f);
        let pre_next_data = if f == m.current + 1 {
            m.next.data
        } else if f == 0 {
            zero_data(m.next.data.len() as int)
        } else {
            m.frames[f - 1].displacements@
        };
        let new_next_data = if f + 1 == m.current {
            m.prev.data
        } else {
            m.frames[f].displacements@
        };
        AnimationModel {
            frames: m.frames,
            current: f,
            time_ms: tw,
            start_ms: new_start,
            prev: BufferModel { interpolation: m.next.interpolation, data: pre_next_data },
            next: BufferModel {
                interpolation: Fraction {
                    num: (tw - new_start) as u64,
                    den: (m.frames[f].time_ms - new_start) as u64,
                },
                data: new_next_data,
            },
        }
    }
}

/// What `spec_seek` does to the buffers, as an effect value.
pub open spec fn spec_seek_effect(m: AnimationModel, t: u64) -> SeekEffect {
    let dur = m.frames.last().time_ms as int;
    let tw = (t as int) % dur;
    let cur_end = m.frames[m.current].time_ms as int;
    if m.start_ms <= tw < cur_end {
        SeekEffect::ScalarOnly
    } else {
        let f = frame_of(m.frames, tw as u64);
        (SeekEffect::Swapped {
            wrote_prev_data: f != m.current + 1,
            wrote_next_data: f + 1 != m.current,
        })
    }
}

/// A seek takes a well-formed animation state to a well-formed one, and its
/// destination frame's window contains the wrapped target time.
pub proof fn lemma_seek_preserves_wf(m: AnimationModel, t: u64)
    requires
        model_wf(m),
    ensures
        model_wf(spec_seek(m, t)),
        spec_seek(m, t).frames == m.frames,
        spec_seek(m, t).time_ms == (t as int) % (m.frames.last().time_ms as int),
        spec_seek(m, t).start_ms <= spec_seek(m, t).time_ms
            < m.frames[spec_seek(m, t).current].time_ms,
{
    let dur = m.frames.last().time_ms as int;
    let tw = (t as int) % dur;
    let cur_end = m.frames[m.current].time_ms as int;
    if m.start_ms <= tw < cur_end {
    } else {
        lemma_target_frame_exists(m.frames, tw as u64);
        let f = frame_of(m.frames, tw as u64);
        let r = spec_seek(m, t);
        assert(m.frames[f].displacements@.len() == m.next.data.len());
        if f != m.current + 1 && f != 0 {
            assert(m.frames[f - 1].displacements@.len() == m.next.data.len());
        }
        assert(r.next.interpolation.wf());
        assert(r.start_ms == spec_start(r.frames, r.current));
    }
}

/// Binary search for the frame whose window contains `t`.
fn find_frame(frames: &Vec<Keyframe>, t: u64) -> (r: usize)
    requires
        frames@.len() > 0,
        times_strictly_increasing(frames@),
        t < frames@.last().time_ms,
    ensures
        is_target_frame(frames@, t, r as int),
{
    let mut lo: usize = 0;
    let mut hi: usize = frames.len() - 1;
    while lo != hi
        invariant
            lo <= hi < frames@.len(),
            t < frames@[hi as int].time_ms,
            lo > 0 ==> frames@[lo as int - 1].time_ms <= t,
            times_strictly_increasing(frames@),
        decreases hi - lo,
    {
        let mid = lo + (hi - lo) / 2;
        if frames[mid].time_ms <= t {
            lo = mid + 1;
        } else {
            hi = mid;
        }
    }
    lo
}

impl PreparedAnimation {
    /// Well-formedness of the animation state.
    pub open spec fn wf(self) -> bool {
        model_wf(self@)
    }

    /// The animation duration in milliseconds.
    pub fn duration_ms(&self) -> (r: u64)
        requires
            self.wf(),
        ensures
            r == self@.frames.last().time_ms,
            r > 0,
    {
        self.keyframes[self.keyframes.len() - 1].time_ms
    }

    /// Seeks the animation to `seek_to_ms` milliseconds from the start,
    /// wrapped modulo the duration. The resulting state is exactly
    /// `spec_seek` of the old state, and the returned effect says whether
    /// the buffers were swapped and which displacement arrays were
    /// uploaded.
    pub fn seek(&mut self, seek_to_ms: u64) -> (effect: SeekEffect)
        requires
            old(self).wf(),
        ensures
            final(self)@ == spec_seek(old(self)@, seek_to_ms),
            effect == spec_seek_effect(old(self)@, seek_to_ms),
            final(self).wf(),
    {
        proof {
            lemma_seek_preserves_wf(old(self)@, seek_to_ms);
        }
        let ghost m0 = self@;
        let len = self.keyframes.len();
        let dur = self.keyframes[len - 1].time_ms;
        let tw = seek_to_ms % dur;
        self.animation_time_ms = tw;
        let cur_end = self.keyframes[self.current_frame].time_ms;
        if self.frame_start_ms <= tw && tw < cur_end {
            let frac = if len == 1 {
                Fraction {
                    num: cur_end - self.frame_start_ms,
                    den: cur_end - self.frame_start_ms,
                }
            } else {
                Fraction { num: tw - self.frame_start_ms, den: cur_end - self.frame_start_ms }
            };
            if self.next_is_b {
                self.buffer_b.interpolation = frac;
            } else {
                self.buffer_a.interpolation = frac;
            }
            proof {
                assert(self@ =~~= spec_seek(m0, seek_to_ms));
            }
            return SeekEffect::ScalarOnly;
        }
        proof {
            lemma_target_frame_exists(m0.frames, tw);
        }
        let to_enter: usize = if self.current_frame == len - 1 && tw < self.keyframes[0].time_ms {
            proof {
                assert(is_target_frame(m0.frames, tw, 0));
            }
            0
        } else if self.current_frame != len - 1 && cur_end <= tw && tw
            < self.keyframes[self.current_frame + 1].time_ms {
            proof {
                assert(is_target_frame(m0.frames, tw, self.current_frame + 1));
            }
            self.current_frame + 1
        } else {
            find_frame(&self.keyframes, tw)
        };
        proof {
            lemma_target_frame_unique(m0.frames, tw, to_enter as int, frame_of(m0.frames, tw));
        }
        let wrote_prev_data: bool;
        if to_enter == self.current_frame + 1 {
            self.frame_start_ms = cur_end;
            wrote_prev_data = false;
        } else if to_enter == 0 {
            self.frame_start_ms = 0;
            let n = if self.next_is_b {
                self.buffer_b.data.len()
            } else {
                self.buffer_a.data.len()
            };
            let zeros = zero_displacements(n);
            if self.next_is_b {
                self.buffer_b.data = zeros;
            } else {
                self.buffer_a.data = zeros;
            }
            wrote_prev_data = true;
        } else {
            self.frame_start_ms = self.keyframes[to_enter - 1].time_ms;
            let data = copy_displacements(&self.keyframes[to_enter - 1].displacements);
            if self.next_is_b {
                self.buffer_b.data = data;
            } else {
                self.buffer_a.data = data;
            }
            wrote_prev_data = true;
        }
        self.next_is_b = !self.next_is_b;
        let wrote_next_data: bool;
        if to_enter + 1 != self.current_frame {
            let data = copy_displacements(&self.keyframes[to_enter].displacements);
            if self.next_is_b {
                self.buffer_b.data = data;
            } else {
                self.buffer_a.data = data;
            }
            wrote_next_data = true;
        } else {
            wrote_next_data = false;
        }
        self.current_frame = to_enter;
        let end = self.keyframes[to_enter].time_ms;
        let frac = Fraction { num: tw - self.frame_start_ms, den: end - self.frame_start_ms };
        if self.next_is_b {
            self.buffer_b.interpolation = frac;
        } else {
            self.buffer_a.interpolation = frac;
        }
        proof {
            assert(self@ =~~= spec_seek(m0, seek_to_ms));
        }
        SeekEffect::Swapped { wrote_prev_data, wrote_next_data }
    }
}

/// The buffers carry what their roles promise: the "next" buffer holds
/// the displacements of the frame being entered, the "previous" buffer
/// those of the frame before it (zeros ahead of the first frame).
pub open spec fn buffers_synced(m: AnimationModel) -> bool {
    &&& m.next.data == m.frames[m.current].displacements@
    &&& (m.current > 0 ==> m.prev.data == m.frames[m.current - 1].displacements@)
    &&& (m.current == 0 ==> m.prev.data == zero_data(m.next.data.len() as int))
}

/// The double-buffer discipline of a seek: whenever the target frame's
/// data was uploaded, the "next" buffer holds the destination keyframe's
/// displacements afterward; and buffers that carried what their roles
/// promise still do after any seek — the swap and the selective rewrites
/// never leave a stale array behind.
pub proof fn lemma_seek_buffer_contents(m: AnimationModel, t: u64)
    requires
        model_wf(m),
    ensures
        ({
            let r = spec_seek(m, t);
            let e = spec_seek_effect(m, t);
            &&& ((e matches SeekEffect::Swapped { wrote_next_data: true, .. }) ==> r.next.data
                == r.frames[r.current].displacements@)
            &&& (buffers_synced(m) ==> buffers_synced(r))
        }),
{
    let dur = m.frames.last().time_ms as int;
    let tw = (t as int) % dur;
    let cur_end = m.frames[m.current].time_ms as int;
    if m.start_ms <= tw < cur_end {
    } else {
        lemma_target_frame_exists(m.frames, tw as u64);
    }
}

/// Two keyframes with the same timestamp and the same displacements.
pub open spec fn keyframe_equal(a: Keyframe, b: Keyframe) -> bool {
    a.time_ms == b.time_ms && a.displacements@ == b.displacements@
}

/// Element-wise deep equality of two keyframe tracks.
pub open spec fn keyframes_equal(a: Seq<Keyframe>, b: Seq<Keyframe>) -> bool {
    a.len() == b.len() && forall|i: int| 0 <= i < a.len() ==> #[trigger] keyframe_equal(a[i], b[i])
}

/// Deep equality carries a track's well-formedness over to its copy.
pub proof fn lemma_keyframes_equal_wf(a: Seq<Keyframe>, b: Seq<Keyframe>, num_points: int)
    requires
        keyframes_equal(a, b),
        animation_wf(a, num_points),
    ensures
        animation_wf(b, num_points),
        b.last().time_ms == a.last().time_ms,
{
    assert forall|i: int, j: int| 0 <= i < j < b.len() implies b[i].time_ms < b[j].time_ms by {
        assert(keyframe_equal(a[i], b[i]));
        assert(keyframe_equal(a[j], b[j]));
    }
    assert forall|i: int| 0 <= i < b.len() implies #[trigger] b[i].displacements@.len()
        == num_points by {
        assert(keyframe_equal(a[i], b[i]));
    }
    assert(keyframe_equal(a[a.len() - 1], b[b.len() - 1]));
}

/// Copies a keyframe track, element for element.
pub fn copy_keyframes(src: &Vec<Keyframe>) -> (r: Vec<Keyframe>)
    ensures
        keyframes_equal(src@, r@),
{
    let mut r: Vec<Keyframe> = Vec::new();
    let mut i: usize = 0;
    while i < src.len()
        invariant
            i <= src@.len(),
            r@.len() == i,
            forall|j: int| 0 <= j < i ==> #[trigger] keyframe_equal(src@[j], r@[j]),
        decreases src@.len() - i,
    {
        let k = Keyframe {
            time_ms: src[i].time_ms,
            displacements: copy_displacements(&src[i].displacements),
        };
        r.push(k);
        i = i + 1;
    }
    r
}

/// Which entity bind-group layout a prepared asset binds: the static
/// layout with one storage binding, or the animated layout with the two
/// extra displacement-buffer bindings.
#[derive(Clone, Copy, PartialEq, Eq, Structural, Debug)]
pub enum BindGroupLayoutKind {
    Entity,
    AnimatedEntity,
}

/// For an animated asset: which physical buffer is bound in the
/// "previous" and the "next" displacement slot (false names buffer A,
/// true names buffer B).
#[derive(Clone, Copy, PartialEq, Eq, Structural, Debug)]
pub struct AnimationBinding {
    pub prev_is_b: bool,
    pub next_is_b: bool,
}

/// Model of a prepared asset's bind group: which layout it was built
/// against and, for an animated asset, which buffer sits in which slot.
#[derive(Clone, Copy, PartialEq, Eq, Structural, Debug)]
pub struct BindGroupModel {
    pub layout: BindGroupLayoutKind,
    pub animation_binding: Option<AnimationBinding>,
}

/// Size in bytes of one animation storage buffer: a leading 4-byte
/// interpolation scalar followed by three 4-byte components per point.
pub fn animation_buffer_size(num_points: u32) -> (r: u64)
    ensures
        r == 12 * (num_points as int) + 4,
{
    (num_points as u64) * 12 + 4
}

/// Size in bytes of the static storage buffer: three 4-byte position
/// components per point, plus three 4-byte color components when colored.
pub fn static_buffer_size(num_points: u32, colored: bool) -> (r: u64)
    ensures
        r == (num_points as int) * (if colored { 24int } else { 12int }),
{
    if colored {
        (num_points as u32 as u64) * 24
    } else {
        (num_points as u64) * 12
    }
}

/// The GPU-resident form of a point-cloud asset.
#[derive(Clone, Debug)]
pub struct PreparedPointCloudAsset {
    pub num_points: u32,
    pub colored: bool,
    /// Size in bytes of the static position(+color) storage buffer.
    pub static_buffer_size: u64,
    pub animation_scale: ScaleBits,
    pub animation: Option<PreparedAnimation>,
    pub bind_group: Option<BindGroupModel>,
}

impl PreparedPointCloudAsset {
    /// Well-formedness: a well-formed animation state sized to the point
    /// count, when animated.
    pub open spec fn wf(self) -> bool {
        match self.animation {
            Some(a) => a.wf() && a@.next.data.len() == self.num_points,
            None => true,
        }
    }

    /// The bind group the current buffer identities demand.
    pub open spec fn spec_bind_group(self) -> BindGroupModel {
        BindGroupModel {
            layout: if self.animation is Some {
                BindGroupLayoutKind::AnimatedEntity
            } else {
                BindGroupLayoutKind::Entity
            },
            animation_binding: match self.animation {
                Some(a) => Some(
                    AnimationBinding { prev_is_b: !a.next_is_b, next_is_b: a.next_is_b },
                ),
                None => None,
            },
        }
    }

    /// Rebuilds the bind group from the current buffer identities. The
    /// single rebinding choke point: idempotent, and safe to call whenever
    /// a buffer identity changed (after every seek that swapped roles).
    pub fn update_bind_group(&mut self)
        ensures
            *final(self) == (PreparedPointCloudAsset {
                bind_group: Some(old(self).spec_bind_group()),
                ..*old(self)
            }),
    {
        let binding = match &self.animation {
            Some(a) => Some(AnimationBinding { prev_is_b: !a.next_is_b, next_is_b: a.next_is_b }),
            None => None,
        };
        let layout = if self.animation.is_some() {
            BindGroupLayoutKind::AnimatedEntity
        } else {
            BindGroupLayoutKind::Entity
        };
        self.bind_group = Some(BindGroupModel { layout, animation_binding: binding });
    }

    /// Seeks the animation of this prepared asset and, when the buffer
    /// roles were swapped, rebuilds the bind group to match the new
    /// identities.
    pub fn seek(&mut self, seek_to_ms: u64) -> (effect: SeekEffect)
        requires
            old(self).wf(),
            old(self).animation is Some,
        ensures
            final(self).wf(),
            final(self).animation matches Some(a) ==> a@ == spec_seek(
                old(self).animation->Some_0@,
                seek_to_ms,
            ),
            final(self).animation is Some,
            effect == spec_seek_effect(old(self).animation->Some_0@, seek_to_ms),
            effect is Swapped ==> final(self).bind_group == Some(final(self).spec_bind_group()),
            effect is ScalarOnly ==> final(self).bind_group == old(self).bind_group,
            final(self).num_points == old(self).num_points,
            final(self).colored == old(self).colored,
            final(self).static_buffer_size == old(self).static_buffer_size,
            final(self).animation_scale == old(self).animation_scale,
    {
        let effect = match &mut self.animation {
            Some(a) => a.seek(seek_to_ms),
            None => {
                proof {
                    assert(false);
                }
                SeekEffect::ScalarOnly
            },
        };
        if matches!(effect, SeekEffect::Swapped { .. }) {
            self.update_bind_group();
        }
        effect
    }
}

/// Builds the GPU-resident form of an asset: the static buffer sized to
/// the interleaved position(+color) data and, when animated, two zero-
/// filled displacement buffers with the seek state at frame 0, time 0.
/// Ends by building the bind group, as every buffer identity is fresh.
pub fn prepare_asset(asset: &PointCloudAsset) -> (r: PreparedPointCloudAsset)
    requires
        asset.wf(),
        asset.positions@.len() <= u32::MAX,
    ensures
        r.num_points == asset.positions@.len(),
        r.colored == (asset.colors is Some),
        r.static_buffer_size == asset.positions@.len() * (if asset.colors is Some {
            24int
        } else {
            12int
        }),
        r.animation_scale == asset.animation_scale,
        r.animation is Some <==> asset.animation is Some,
        asset.animation matches Some(frames) ==> r.animation matches Some(a) && {
            &&& keyframes_equal(frames@, a.keyframes@)
            &&& a@.current == 0
            &&& a@.time_ms == 0
            &&& a@.start_ms == 0
            &&& a@.prev.data == zero_data(asset.positions@.len() as int)
            &&& a@.next.data == zero_data(asset.positions@.len() as int)
            &&& a@.prev.interpolation.num == 0
            &&& a@.next.interpolation.num == 0
        },
        r.bind_group == Some(r.spec_bind_group()),
        r.wf(),
{
    let num_points = asset.positions.len() as u32;
    let colored = asset.colors.is_some();
    let animation = match &asset.animation {
        Some(frames) => {
            let keyframes = copy_keyframes(frames);
            proof {
                lemma_keyframes_equal_wf(
                    frames@,
                    keyframes@,
                    asset.positions@.len() as int,
                );
            }
            let a = PreparedAnimation {
                keyframes,
                buffer_a: AnimationBuffer {
                    interpolation: Fraction::zero(),
                    data: zero_displacements(asset.positions.len()),
                },
                buffer_b: AnimationBuffer {
                    interpolation: Fraction::zero(),
                    data: zero_displacements(asset.positions.len()),
                },
                next_is_b: true,
                current_frame: 0,
                animation_time_ms: 0,
                frame_start_ms: 0,
            };
            Some(a)
        },
        None => None,
    };
    let mut r = PreparedPointCloudAsset {
        num_points,
        colored,
        static_buffer_size: static_buffer_size(num_points, colored),
        animation_scale: asset.animation_scale,
        animation,
        bind_group: None,
    };
    r.update_bind_group();
    r
}

/// One prepared asset of the render world, keyed by its source asset's
/// handle.
#[derive(Clone, Debug)]
pub struct PreparedAssetEntry {
    pub handle: u64,
    pub asset: PreparedPointCloudAsset,
}

/// A mutable borrow of one entry of the prepared-asset table.
fn entry_at_mut(entries: &mut Vec<PreparedAssetEntry>, i: usize) -> (r: &mut PreparedAssetEntry)
    requires
        i < old(entries)@.len(),
    ensures
        *r == old(entries)@[i as int],
        final(entries)@ == old(entries)@.update(i as int, *final(r)),
{
    &mut entries[i]
}

/// What the per-frame update owes for one asset: an animated asset whose
/// controller time moved since its last seek has been seeked there (and
/// rebound when the seek swapped buffers); every other asset is untouched.
pub open spec fn spec_asset_updated(
    pre: PreparedPointCloudAsset,
    post: PreparedPointCloudAsset,
    controls: crate::playback::PlaybackControls,
) -> bool {
    if pre.animation is Some && controls.time_ms != pre.animation->Some_0@.time_ms {
        let m0 = pre.animation->Some_0@;
        &&& post.animation is Some
        &&& post.animation->Some_0@ == spec_seek(m0, controls.time_ms)
        &&& post.wf()
        &&& post.num_points == pre.num_points
        &&& post.colored == pre.colored
        &&& post.static_buffer_size == pre.static_buffer_size
        &&& post.animation_scale == pre.animation_scale
        &&& (spec_seek_effect(m0, controls.time_ms) is Swapped ==> post.bind_group == Some(
            post.spec_bind_group(),
        ))
        &&& (spec_seek_effect(m0, controls.time_ms) is ScalarOnly ==> post.bind_group
            == pre.bind_group)
    } else {
        post == pre
    }
}

/// The per-frame animation update: for every prepared asset that is
/// animated and whose controller time differs from the time of its last
/// seek, seeks the buffers there. The controller's time is authoritative
/// input and is never written back.
pub fn prepare_animated_assets(
    assets: &mut Vec<PreparedAssetEntry>,
    playback: &crate::playback::PointCloudPlaybackControls,
)
    requires
        playback.wf(),
        forall|i: int|
            0 <= i < old(assets)@.len() ==> (#[trigger] old(assets)@[i]).asset.wf(),
    ensures
        final(assets)@.len() == old(assets)@.len(),
        forall|i: int|
            0 <= i < old(assets)@.len() ==> {
                &&& (#[trigger] final(assets)@[i]).handle == old(assets)@[i].handle
                &&& spec_asset_updated(
                    old(assets)@[i].asset,
                    final(assets)@[i].asset,
                    playback.spec_controls(old(assets)@[i].handle),
                )
            },
{
    let ghost a0 = assets@;
    let mut i: usize = 0;
    while i < assets.len()
        invariant
            i <= a0.len(),
            assets@.len() == a0.len(),
            playback.wf(),
            forall|j: int| 0 <= j < a0.len() ==> (#[trigger] a0[j]).asset.wf(),
            forall|j: int| i <= j < a0.len() ==> assets@[j] == a0[j],
            forall|j: int|
                0 <= j < i ==> {
                    &&& (#[trigger] assets@[j]).handle == a0[j].handle
                    &&& spec_asset_updated(
                        a0[j].asset,
                        assets@[j].asset,
                        playback.spec_controls(a0[j].handle),
                    )
                },
        decreases a0.len() - i,
    {
        let handle = assets[i].handle;
        let controls = playback.controls(handle);
        let stale = match &assets[i].asset.animation {
            Some(a) => controls.time_ms != a.animation_time_ms,
            None => false,
        };
        if stale {
            let entry = entry_at_mut(assets, i);
            entry.asset.seek(controls.time_ms);
        }
        i = i + 1;
    }
}

/// A seek always lands in the frame whose window contains the wrapped
/// target time, with the window's start time and the exact interpolation
/// scalar of the position inside it — regardless of the state it started
/// from.
pub proof fn lemma_seek_lands_in_target(m: AnimationModel, t: u64)
    requires
        model_wf(m),
    ensures
        ({
            let dur = m.frames.last().time_ms as int;
            let tw = ((t as int) % dur) as u64;
            let r = spec_seek(m, t);
            &&& r.current == frame_of(m.frames, tw)
            &&& r.start_ms == spec_start(m.frames, r.current)
            &&& r.next.interpolation == (Fraction {
                num: if m.frames.len() == 1 {
                    (m.frames[r.current].time_ms - r.start_ms) as u64
                } else {
                    (tw - r.start_ms) as u64
                },
                den: (m.frames[r.current].time_ms - r.start_ms) as u64,
            })
        }),
{
    let dur = m.frames.last().time_ms as int;
    let tw = ((t as int) % dur) as u64;
    lemma_target_frame_exists(m.frames, tw);
    let cur_end = m.frames[m.current].time_ms as int;
    if m.start_ms <= tw < cur_end {
        assert(is_target_frame(m.frames, tw, m.current));
        lemma_target_frame_unique(m.frames, tw, m.current, frame_of(m.frames, tw));
    }
}

/// The destination frame, window start and interpolation scalar of a seek
/// are functions of the target time alone: two states sharing the same
/// keyframes land identically, however their buffers and positions differ.
pub proof fn lemma_seek_target_is_function_of_time(
    m1: AnimationModel,
    m2: AnimationModel,
    t: u64,
)
    requires
        model_wf(m1),
        model_wf(m2),
        m1.frames == m2.frames,
    ensures
        spec_seek(m1, t).current == spec_seek(m2, t).current,
        spec_seek(m1, t).start_ms == spec_seek(m2, t).start_ms,
        spec_seek(m1, t).next.interpolation == spec_seek(m2, t).next.interpolation,
{
    lemma_seek_lands_in_target(m1, t);
    lemma_seek_lands_in_target(m2, t);
}

/// Seek idempotence: seeking twice to the same time is the same as seeking
/// once. The second seek swaps no buffers and uploads no displacement data —
/// it only recomputes the interpolation scalar, to the identical value.
pub proof fn lemma_seek_idempotent(m: AnimationModel, t: u64)
    requires
        model_wf(m),
    ensures
        spec_seek(spec_seek(m, t), t) == spec_seek(m, t),
        spec_seek_effect(spec_seek(m, t), t) == SeekEffect::ScalarOnly,
{
    lemma_seek_preserves_wf(m, t);
    lemma_seek_lands_in_target(m, t);
    let m1 = spec_seek(m, t);
    assert(spec_seek(m1, t) =~~= m1);
}

/// Round trip, for tracks of at least two keyframes: after seeking
/// anywhere, seeking to the midpoint of the window just landed in stays in
/// the same frame, and the interpolation scalar is one half, up to the
/// truncation of an odd window length. (A single-keyframe track is left
/// out: its scalar is held constant at one.)
pub proof fn lemma_seek_round_trip(m: AnimationModel, t: u64)
    requires
        model_wf(m),
        m.frames.len() >= 2,
    ensures
        ({
            let m1 = spec_seek(m, t);
            let mid = (m1.start_ms + m.frames[m1.current].time_ms) / 2;
            let m2 = spec_seek(m1, mid as u64);
            &&& m2.current == m1.current
            &&& 2 * m2.next.interpolation.num <= m2.next.interpolation.den
                <= 2 * m2.next.interpolation.num + 1
        }),
{
    lemma_seek_preserves_wf(m, t);
    let m1 = spec_seek(m, t);
    let end = m.frames[m1.current].time_ms as int;
    let mid = (m1.start_ms + end) / 2;
    assert(m1.start_ms <= mid < end);
    assert(m1.current < m.frames.len() - 1 ==> m.frames[m1.current].time_ms
        < m.frames.last().time_ms);
    assert(mid < m.frames.last().time_ms as int);
    vstd::arithmetic::div_mod::lemma_small_mod(mid as nat, m.frames.last().time_ms as nat);
    let m2 = spec_seek(m1, mid as u64);
    assert(m2.current == m1.current);
}

/// Wraparound: seeking to any whole multiple of the duration — to the
/// duration itself in particular — wraps to the start: the destination
/// window begins at time zero, and when the first keyframe's timestamp is
/// positive the destination is frame 0.
pub proof fn lemma_seek_wraparound(m: AnimationModel, t: u64)
    requires
        model_wf(m),
        (t as int) % (m.frames.last().time_ms as int) == 0,
    ensures
        spec_seek(m, t).start_ms == 0,
        spec_seek(m, t).time_ms == 0,
        m.frames[0].time_ms > 0 ==> spec_seek(m, t).current == 0,
{
    lemma_seek_lands_in_target(m, t);
    lemma_seek_preserves_wf(m, t);
    let r = spec_seek(m, t);
    assert(is_target_frame(m.frames, 0, r.current)) by {
        lemma_target_frame_exists(m.frames, 0);
        lemma_target_frame_unique(m.frames, 0, r.current, frame_of(m.frames, 0));
    }
    if r.current > 0 {
        assert(m.frames[r.current - 1].time_ms == 0);
    }
    if m.frames[0].time_ms > 0 {
        assert(is_target_frame(m.frames, 0, 0));
        lemma_target_frame_unique(m.frames, 0, r.current, 0);
    }
}

} // verus!
