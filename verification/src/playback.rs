//! The playback controller: the process-wide table of per-asset timeline
//! state, advanced once per frame and pruned of entries whose asset has
//! vanished or lost its animation.
//!
//! Speeds are signed thousandths of natural rate (1000 is forward at wall
//! clock, -1000 reverse); the scaled delta is truncated toward zero to
//! whole milliseconds before the time is wrapped modulo the duration.

use vstd::prelude::*;
use vstd::arithmetic::div_mod::{
    lemma_div_multiples_vanish, lemma_fundamental_div_mod, lemma_mod_multiples_vanish,
};

verus! {

/// Natural forward speed, in thousandths.
pub const SPEED_NATURAL_MILLI: i64 = 1000;

/// The externally driven playback state of one asset.
#[derive(Clone, Copy, PartialEq, Eq, Structural, Debug)]
pub struct PlaybackControls {
    /// Position in the animation, as whole milliseconds, in `[0, duration)`.
    pub time_ms: u64,
    /// Whether the timeline advances with wall-clock time.
    pub playing: bool,
    /// Signed speed multiplier in thousandths; negative plays in reverse.
    pub speed_milli: i64,
}

impl Default for PlaybackControls {
    /// A fresh entry: at the start, paused, at natural forward speed.
    fn default() -> (r: Self)
        ensures
            r == (PlaybackControls { time_ms: 0, playing: false, speed_milli: SPEED_NATURAL_MILLI }),
    {
        PlaybackControls { time_ms: 0, playing: false, speed_milli: SPEED_NATURAL_MILLI }
    }
}

/// One playback table entry, keyed by the numeric asset handle.
#[derive(Clone, Copy, PartialEq, Eq, Structural, Debug)]
pub struct PlaybackEntry {
    pub handle: u64,
    pub controls: PlaybackControls,
}

/// The duration of one existing animated asset, for the pruning pass.
#[derive(Clone, Copy, PartialEq, Eq, Structural, Debug)]
pub struct AssetDuration {
    pub handle: u64,
    pub duration_ms: u64,
}

/// The signed whole-millisecond shift of an advance: the speed-scaled
/// delta, truncated toward zero.
pub open spec fn spec_shift(speed_milli: int, delta_ms: int) -> int {
    if speed_milli >= 0 {
        (speed_milli * delta_ms) / 1000
    } else {
        -(((-speed_milli) * delta_ms) / 1000)
    }
}

/// One advance of a timeline position: add the speed-scaled delta and wrap
/// into `[0, duration)`.
pub open spec fn spec_advance(time_ms: int, speed_milli: int, delta_ms: int, dur: int) -> int {
    (time_ms + spec_shift(speed_milli, delta_ms)) % dur
}

/// The duration table lookup: the first entry with the given handle.
pub open spec fn spec_duration_of(durs: Seq<AssetDuration>, handle: u64) -> Option<u64>
    decreases durs.len(),
{
    if durs.len() == 0 {
        None
    } else if durs[0].handle == handle {
        Some(durs[0].duration_ms)
    } else {
        spec_duration_of(durs.skip(1), handle)
    }
}

/// What one tick makes of one retained entry: advanced when playing, kept
/// as it is when paused.
pub open spec fn spec_tick_entry(e: PlaybackEntry, delta_ms: u64, dur: u64) -> PlaybackEntry {
    if e.controls.playing {
        PlaybackEntry {
            handle: e.handle,
            controls: PlaybackControls {
                time_ms: spec_advance(
                    e.controls.time_ms as int,
                    e.controls.speed_milli as int,
                    delta_ms as int,
                    dur as int,
                ) as u64,
                ..e.controls
            },
        }
    } else {
        e
    }
}

/// What one tick makes of the whole table: entries whose asset is gone or
/// no longer animated are dropped, the rest advance when playing.
pub open spec fn spec_tick(
    entries: Seq<PlaybackEntry>,
    durs: Seq<AssetDuration>,
    delta_ms: u64,
) -> Seq<PlaybackEntry>
    decreases entries.len(),
{
    if entries.len() == 0 {
        Seq::empty()
    } else {
        let rest = spec_tick(entries.drop_last(), durs, delta_ms);
        match spec_duration_of(durs, entries.last().handle) {
            Some(dur) => rest.push(spec_tick_entry(entries.last(), delta_ms, dur)),
            None => rest,
        }
    }
}

/// Unique handles in a sequence of entries.
pub open spec fn unique_handles(entries: Seq<PlaybackEntry>) -> bool {
    forall|i: int, j: int| 0 <= i < j < entries.len() ==> entries[i].handle != entries[j].handle
}

/// The controls a table records for `handle`: the controls of its entry,
/// or the defaults when it holds none.
pub open spec fn spec_controls_in(entries: Seq<PlaybackEntry>, handle: u64) -> PlaybackControls {
    if exists|i: int| 0 <= i < entries.len() && entries[i].handle == handle {
        let i = choose|i: int| 0 <= i < entries.len() && entries[i].handle == handle;
        entries[i].controls
    } else {
        PlaybackControls { time_ms: 0, playing: false, speed_milli: SPEED_NATURAL_MILLI }
    }
}

/// In a table with unique handles, the entry at `i` is what the lookup of
/// its handle returns.
pub proof fn lemma_controls_at(entries: Seq<PlaybackEntry>, i: int)
    requires
        unique_handles(entries),
        0 <= i < entries.len(),
    ensures
        spec_controls_in(entries, entries[i].handle) == entries[i].controls,
{
    let h = entries[i].handle;
    assert(0 <= i < entries.len() && entries[i].handle == h);
    let j = choose|j: int| 0 <= j < entries.len() && entries[j].handle == h;
    if i != j {
        assert(entries[i].handle != entries[j].handle);
    }
}

/// The process-wide playback table, keyed by asset handle; insertion order
/// is an implementation detail.
#[derive(Clone, Debug)]
pub struct PointCloudPlaybackControls {
    pub entries: Vec<PlaybackEntry>,
}

impl PointCloudPlaybackControls {
    /// Well-formedness: one entry per handle.
    pub open spec fn wf(self) -> bool {
        unique_handles(self.entries@)
    }

    /// The controls recorded for `handle`, or the defaults.
    pub open spec fn spec_controls(self, handle: u64) -> PlaybackControls {
        spec_controls_in(self.entries@, handle)
    }

    /// An empty table.
    pub fn new() -> (r: Self)
        ensures
            r.wf(),
            r.entries@.len() == 0,
    {
        PointCloudPlaybackControls { entries: Vec::new() }
    }

    /// A value-type snapshot of the controls for `handle`; the defaults
    /// when the table holds no entry for it.
    pub fn controls(&self, handle: u64) -> (r: PlaybackControls)
        requires
            self.wf(),
        ensures
            r == self.spec_controls(handle),
    {
        let mut i: usize = 0;
        while i < self.entries.len()
            invariant
                i <= self.entries@.len(),
                unique_handles(self.entries@),
                forall|j: int| 0 <= j < i ==> self.entries@[j].handle != handle,
            decreases self.entries@.len() - i,
        {
            if self.entries[i].handle == handle {
                proof {
                    lemma_controls_at(self.entries@, i as int);
                }
                return self.entries[i].controls;
            }
            i = i + 1;
        }
        PlaybackControls::default()
    }

    /// The position of the entry for `handle`, if the table holds one.
    fn index_of(&self, handle: u64) -> (r: Option<usize>)
        ensures
            match r {
                Some(i) => i < self.entries@.len() && self.entries@[i as int].handle == handle,
                None => forall|j: int|
                    0 <= j < self.entries@.len() ==> self.entries@[j].handle != handle,
            },
    {
        let mut i: usize = 0;
        while i < self.entries.len()
            invariant
                i <= self.entries@.len(),
                forall|j: int| 0 <= j < i ==> self.entries@[j].handle != handle,
            decreases self.entries@.len() - i,
        {
            if self.entries[i].handle == handle {
                return Some(i);
            }
            i = i + 1;
        }
        None
    }

    /// A mutable borrow of the controls for `handle`, creating a default
    /// entry on first access: the mutable access path of the table,
    /// driven by the UI.
    pub fn controls_mut(&mut self, handle: u64) -> (r: &mut PlaybackControls)
        requires
            old(self).wf(),
        ensures
            *r == old(self).spec_controls(handle),
            final(self).wf(),
            final(self).spec_controls(handle) == *final(r),
            forall|h: u64|
                h != handle ==> final(self).spec_controls(h) == old(self).spec_controls(h),
    {
        let ghost entries0 = self.entries@;
        let idx: usize = match self.index_of(handle) {
            Some(i) => i,
            None => {
                let i = self.entries.len();
                self.entries.push(PlaybackEntry {
                    handle,
                    controls: PlaybackControls::default(),
                });
                i
            },
        };
        let ghost cur = self.entries@;
        proof {
            assert(unique_handles(cur)) by {
                assert forall|p: int, q: int| 0 <= p < q < cur.len() implies cur[p].handle
                    != cur[q].handle by {
                    if q < entries0.len() {
                        assert(entries0[p].handle != entries0[q].handle);
                    } else if p < entries0.len() {
                        assert(entries0[p].handle != handle);
                    }
                }
            }
            lemma_controls_at(cur, idx as int);
            if cur.len() > entries0.len() {
                assert(forall|j: int|
                    0 <= j < entries0.len() ==> entries0[j].handle != handle);
                assert(spec_controls_in(entries0, handle) == (PlaybackControls {
                    time_ms: 0,
                    playing: false,
                    speed_milli: SPEED_NATURAL_MILLI,
                }));
            }
            assert(cur[idx as int].controls == spec_controls_in(entries0, handle));
            assert forall|h: u64| h != handle implies spec_controls_in(cur, h)
                == spec_controls_in(entries0, h) by {
                if cur.len() > entries0.len() {
                    lemma_lookup_push_other(entries0, cur, h);
                }
            }
        }
        let r = playback_entry_controls_mut(&mut self.entries, idx);
        proof {
            let updated = cur.update(
                idx as int,
                PlaybackEntry { handle, controls: *final(r) },
            );
            assert(unique_handles(updated)) by {
                assert forall|p: int, q: int| 0 <= p < q < updated.len() implies updated[p].handle
                    != updated[q].handle by {
                    assert(cur[p].handle != cur[q].handle);
                    assert(updated[p].handle == cur[p].handle);
                    assert(updated[q].handle == cur[q].handle);
                }
            }
            lemma_controls_at(updated, idx as int);
            assert forall|h: u64| h != handle implies spec_controls_in(updated, h)
                == spec_controls_in(cur, h) by {
                lemma_lookup_update_other(cur, updated, idx as int, h);
            }
        }
        r
    }

    /// Writes the controls for `handle` in one call, creating the entry
    /// when the table holds none.
    pub fn set_controls(&mut self, handle: u64, controls: PlaybackControls)
        requires
            old(self).wf(),
        ensures
            final(self).wf(),
            final(self).spec_controls(handle) == controls,
            forall|h: u64|
                h != handle ==> final(self).spec_controls(h) == old(self).spec_controls(h),
    {
        let r = self.controls_mut(handle);
        *r = controls;
    }
}

/// A mutable borrow of the controls of the entry at `i`; the handle stays.
fn playback_entry_controls_mut(entries: &mut Vec<PlaybackEntry>, i: usize) -> (r: &mut
    PlaybackControls)
    requires
        i < old(entries)@.len(),
    ensures
        *r == old(entries)@[i as int].controls,
        final(entries)@ == old(entries)@.update(
            i as int,
            PlaybackEntry { handle: old(entries)@[i as int].handle, controls: *final(r) },
        ),
{
    &mut entries[i].controls
}

/// Advances one timeline position: adds the speed-scaled delta, truncated
/// toward zero to whole milliseconds, and wraps into `[0, dur)`.
pub fn advance_time(time_ms: u64, speed_milli: i64, delta_ms: u64, dur: u64) -> (r: u64)
    requires
        dur > 0,
    ensures
        r == spec_advance(time_ms as int, speed_milli as int, delta_ms as int, dur as int),
        r < dur,
{
    if speed_milli >= 0 {
        proof {
            assert((speed_milli as int) * (delta_ms as int) < 0x8000000000000000
                * 0x10000000000000000) by (nonlinear_arith)
                requires
                    0 <= speed_milli < 0x8000000000000000,
                    0 <= delta_ms < 0x10000000000000000,
            ;
        }
        let mag: u128 = ((speed_milli as u128) * (delta_ms as u128)) / 1000;
        (((time_ms as u128) + mag) % (dur as u128)) as u64
    } else {
        let neg: u128 = (-(speed_milli as i128)) as u128;
        proof {
            assert((neg as int) * (delta_ms as int) <= 0x8000000000000000
                * 0x10000000000000000) by (nonlinear_arith)
                requires
                    0 <= neg <= 0x8000000000000000,
                    0 <= delta_ms < 0x10000000000000000,
            ;
        }
        let mag: u128 = (neg * (delta_ms as u128)) / 1000;
        let back: u128 = mag % (dur as u128);
        let r = (((time_ms as u128) + (dur as u128) - back) % (dur as u128)) as u64;
        proof {
            let t = time_ms as int;
            let m = mag as int;
            let d = dur as int;
            let q = m / d;
            lemma_fundamental_div_mod(m, d);
            lemma_mod_multiples_vanish(q, t - m, d);
            assert((t - (back as int)) % d == (t - m) % d) by {
                assert(d * q + (t - m) == t - (back as int));
            }
            lemma_mod_multiples_vanish(1, t - (back as int), d);
            assert((t + d - back) % d == (t - m) % d) by {
                assert(d * 1 + (t - (back as int)) == t + d - back);
            }
        }
        r
    }
}

/// Looks up the duration recorded for `handle`.
pub fn duration_lookup(durs: &Vec<AssetDuration>, handle: u64) -> (r: Option<u64>)
    ensures
        r == spec_duration_of(durs@, handle),
{
    let mut i: usize = 0;
    proof {
        assert(durs@.skip(0) =~= durs@);
    }
    while i < durs.len()
        invariant
            i <= durs@.len(),
            spec_duration_of(durs@, handle) == spec_duration_of(durs@.skip(i as int), handle),
        decreases durs@.len() - i,
    {
        if durs[i].handle == handle {
            proof {
                assert(durs@.skip(i as int)[0] == durs@[i as int]);
            }
            return Some(durs[i].duration_ms);
        }
        proof {
            assert(durs@.skip(i as int)[0] == durs@[i as int]);
            assert(durs@.skip(i as int).skip(1) =~= durs@.skip(i + 1));
        }
        i = i + 1;
    }
    proof {
        assert(durs@.skip(i as int).len() == 0);
    }
    None
}

/// The handle of every entry a tick keeps was already in the table.
proof fn lemma_tick_handles_subset(
    entries: Seq<PlaybackEntry>,
    durs: Seq<AssetDuration>,
    delta_ms: u64,
    k: int,
)
    requires
        0 <= k < spec_tick(entries, durs, delta_ms).len(),
    ensures
        exists|j: int|
            0 <= j < entries.len() && entries[j].handle == spec_tick(entries, durs, delta_ms)[k].handle,
    decreases entries.len(),
{
    let r = spec_tick(entries, durs, delta_ms);
    let rest = spec_tick(entries.drop_last(), durs, delta_ms);
    if k < rest.len() {
        lemma_tick_handles_subset(entries.drop_last(), durs, delta_ms, k);
        let j = choose|j: int|
            0 <= j < entries.drop_last().len() && entries.drop_last()[j].handle == rest[k].handle;
        assert(entries[j].handle == r[k].handle);
    } else {
        assert(entries[entries.len() - 1].handle == r[k].handle);
    }
}

/// A tick keeps handles unique.
proof fn lemma_tick_unique(entries: Seq<PlaybackEntry>, durs: Seq<AssetDuration>, delta_ms: u64)
    requires
        unique_handles(entries),
    ensures
        unique_handles(spec_tick(entries, durs, delta_ms)),
    decreases entries.len(),
{
    if entries.len() > 0 {
        let prefix = entries.drop_last();
        assert(unique_handles(prefix)) by {
            assert(forall|i: int| 0 <= i < prefix.len() ==> prefix[i] == entries[i]);
        }
        lemma_tick_unique(prefix, durs, delta_ms);
        let r = spec_tick(entries, durs, delta_ms);
        let rest = spec_tick(prefix, durs, delta_ms);
        if r.len() > rest.len() {
            assert forall|i: int, j: int| 0 <= i < j < r.len() implies r[i].handle
                != r[j].handle by {
                if j < rest.len() {
                } else {
                    assert(r[j].handle == entries[entries.len() - 1].handle);
                    if i < rest.len() {
                        lemma_tick_handles_subset(prefix, durs, delta_ms, i);
                        let p = choose|p: int|
                            0 <= p < prefix.len() && prefix[p].handle == rest[i].handle;
                        assert(entries[p].handle != entries[entries.len() - 1].handle);
                    }
                }
            }
        }
    }
}

impl PointCloudPlaybackControls {
    /// One per-frame tick of the whole table: every entry whose asset is
    /// listed with a duration is kept and, when playing, advanced by the
    /// frame's delta at its own speed, wrapped modulo that duration;
    /// entries without a listed asset are pruned. This is the single
    /// writer of the timeline.
    pub fn playback_system(&mut self, delta_ms: u64, durations: &Vec<AssetDuration>)
        requires
            old(self).wf(),
            forall|i: int| 0 <= i < durations@.len() ==> durations@[i].duration_ms > 0,
        ensures
            final(self).entries@ == spec_tick(old(self).entries@, durations@, delta_ms),
            final(self).wf(),
    {
        let ghost entries0 = self.entries@;
        let mut out: Vec<PlaybackEntry> = Vec::new();
        let mut i: usize = 0;
        while i < self.entries.len()
            invariant
                i <= self.entries@.len(),
                self.entries@ == entries0,
                forall|k: int| 0 <= k < durations@.len() ==> durations@[k].duration_ms > 0,
                out@ == spec_tick(entries0.subrange(0, i as int), durations@, delta_ms),
            decreases self.entries@.len() - i,
        {
            let ghost pre = entries0.subrange(0, i as int);
            let ghost cur = entries0.subrange(0, i as int + 1);
            proof {
                assert(cur.drop_last() =~= pre);
                assert(cur.last() == entries0[i as int]);
            }
            let e = self.entries[i];
            match duration_lookup(durations, e.handle) {
                Some(dur) => {
                    proof {
                        lemma_duration_positive(durations@, e.handle);
                    }
                    let e2 = if e.controls.playing {
                        PlaybackEntry {
                            handle: e.handle,
                            controls: PlaybackControls {
                                time_ms: advance_time(
                                    e.controls.time_ms,
                                    e.controls.speed_milli,
                                    delta_ms,
                                    dur,
                                ),
                                playing: e.controls.playing,
                                speed_milli: e.controls.speed_milli,
                            },
                        }
                    } else {
                        e
                    };
                    out.push(e2);
                },
                None => {},
            }
            i = i + 1;
        }
        proof {
            assert(entries0.subrange(0, entries0.len() as int) =~= entries0);
            lemma_tick_unique(entries0, durations@, delta_ms);
        }
        self.entries = out;
    }
}

/// A listed duration is positive when every table entry is.
proof fn lemma_duration_positive(durs: Seq<AssetDuration>, handle: u64)
    requires
        forall|i: int| 0 <= i < durs.len() ==> durs[i].duration_ms > 0,
        spec_duration_of(durs, handle) is Some,
    ensures
        spec_duration_of(durs, handle)->Some_0 > 0,
    decreases durs.len(),
{
    if durs.len() > 0 && durs[0].handle != handle {
        assert(forall|i: int|
            0 <= i < durs.skip(1).len() ==> durs.skip(1)[i].duration_ms > 0) by {
            assert(forall|i: int| 0 <= i < durs.skip(1).len() ==> durs.skip(1)[i] == durs[i + 1]);
        }
        lemma_duration_positive(durs.skip(1), handle);
    }
}

/// Additivity of playback at natural forward speed: advancing by one delta
/// and then by another lands where a single advance by their sum lands. So
/// summing many small frame deltas reproduces a single seek to the
/// accumulated time.
pub proof fn lemma_advance_additive(time_ms: int, d1: int, d2: int, dur: int)
    requires
        dur > 0,
        0 <= time_ms,
        0 <= d1,
        0 <= d2,
    ensures
        spec_advance(
            spec_advance(time_ms, SPEED_NATURAL_MILLI as int, d1, dur),
            SPEED_NATURAL_MILLI as int,
            d2,
            dur,
        ) == spec_advance(time_ms, SPEED_NATURAL_MILLI as int, d1 + d2, dur),
{
    lemma_div_multiples_vanish(d1, 1000);
    lemma_div_multiples_vanish(d2, 1000);
    lemma_div_multiples_vanish(d1 + d2, 1000);
    let a = time_ms + d1;
    let q = a / dur;
    lemma_fundamental_div_mod(a, dur);
    lemma_mod_multiples_vanish(q, a % dur + d2, dur);
    assert((a % dur + d2) % dur == (a + d2) % dur) by {
        assert(dur * q + (a % dur + d2) == a + d2);
    }
}

/// Updating the entry at `i` leaves the lookup of every other handle as it
/// was.
proof fn lemma_lookup_update_other(
    a: Seq<PlaybackEntry>,
    b: Seq<PlaybackEntry>,
    i: int,
    h: u64,
)
    requires
        unique_handles(a),
        unique_handles(b),
        a.len() == b.len(),
        0 <= i < a.len(),
        forall|j: int| 0 <= j < a.len() && j != i ==> a[j] == b[j],
        a[i].handle != h,
        b[i].handle != h,
    ensures
        spec_controls_in(b, h) == spec_controls_in(a, h),
{
    if exists|j: int| 0 <= j < a.len() && a[j].handle == h {
        let j = choose|j: int| 0 <= j < a.len() && a[j].handle == h;
        assert(j != i);
        assert(b[j].handle == h);
        lemma_controls_at(a, j);
        lemma_controls_at(b, j);
    } else {
        assert forall|j: int| 0 <= j < b.len() implies b[j].handle != h by {
            if j != i {
                assert(a[j].handle != h);
            }
        }
    }
}

/// Appending an entry with a fresh handle leaves the lookup of every other
/// handle as it was.
proof fn lemma_lookup_push_other(a: Seq<PlaybackEntry>, b: Seq<PlaybackEntry>, h: u64)
    requires
        unique_handles(a),
        unique_handles(b),
        b.len() == a.len() + 1,
        forall|j: int| 0 <= j < a.len() ==> a[j] == b[j],
        b.last().handle != h,
    ensures
        spec_controls_in(b, h) == spec_controls_in(a, h),
{
    if exists|j: int| 0 <= j < a.len() && a[j].handle == h {
        let j = choose|j: int| 0 <= j < a.len() && a[j].handle == h;
        assert(b[j].handle == h);
        lemma_controls_at(a, j);
        lemma_controls_at(b, j);
    } else {
        assert forall|j: int| 0 <= j < b.len() implies b[j].handle != h by {
            if j < a.len() {
                assert(a[j].handle != h);
            }
        }
    }
}

} // verus!
