//! The loader for animated point sets in the opd format.
//!
//! The container grammar is this library's own logic, parsed and verified
//! here byte by byte: the magic tag, a length-prefixed JSON header, a
//! centroid table of big-endian words, and per-frame displacement arrays
//! whose extents the header's frame metadata dictates. Only the embedded
//! JSON header goes through an outside call (serde_json, deserializing
//! into the opd crate's header type), behind trusted accessors that hand
//! out plain values.

use vstd::prelude::*;
use vstd::slice::{slice_index_get, slice_subrange};

use crate::las_loader::{xs_of, ys_of, zs_of};
use crate::numeric::{
    lemma_seq_min_max_attained, lemma_seq_min_max_bounds, seq_max, seq_min, spec_f32_to_fixed,
    spec_f32_to_whole, spec_u32_be, f32_bits_to_fixed, f32_bits_to_whole, u32_from_be,
};
use crate::point_cloud::{Displacement, Keyframe, PointCloudAsset, Position, ScaleBits};

verus! {

/// The fixed-point denominator of opd positions: `2^16`, the library's
/// coordinate fraction.
pub const OPD_POSITION_DENOM: u64 = 65536;

#[verifier::external_type_specification]
#[verifier::external_body]
pub struct ExSerdeJsonError(serde_json::Error);

/// One frame's metadata as plain values.
#[derive(Clone, Copy, PartialEq, Eq, Structural, Debug)]
pub struct FrameMetaInfo {
    /// The timestamp in milliseconds, as a single-precision bit pattern.
    pub time_bits: u32,
    /// The byte offset of the frame's displacement data.
    pub offset: usize,
}

/// The header fields the container grammar depends on, as plain values.
#[derive(Clone, Debug)]
pub struct OpdHeaderInfo {
    pub num_centroids: Option<usize>,
    /// The byte width of one displacement component.
    pub precision: usize,
    /// The per-axis animation scale, as single-precision bit patterns.
    pub scale: ScaleBits,
    pub frames: Vec<FrameMetaInfo>,
}

/// The header fields the opd crate's JSON header document declares, when
/// it deserializes; `None` when serde_json rejects it. Deserialization
/// reads nothing but the document bytes, so the result is a function of
/// them alone.
pub uninterp spec fn opd_header_of(json: Seq<u8>) -> Option<OpdHeaderInfo>;

/// Relies on serde_json::from_slice deserializing the opd crate's header
/// type from the embedded JSON document, returning its error on malformed
/// input. The fields the container grammar depends on are handed out as
/// plain values, the scale and the timestamps as their single-precision
/// bit patterns.
#[verifier::external_body]
fn parse_opd_header_info(json: &[u8]) -> (r: Result<OpdHeaderInfo, serde_json::Error>)
    ensures
        r matches Ok(info) ==> Some(info) == opd_header_of(json@),
        r is Err <==> opd_header_of(json@) is None,
{
    let h: opd_parser::OpdHeader = serde_json::from_slice(json)?;
    let d = h.directive;
    Ok(OpdHeaderInfo {
        num_centroids: d.num_centroids,
        precision: d.precision,
        scale: ScaleBits {
            x: d.scale[0].to_bits(),
            y: d.scale[1].to_bits(),
            z: d.scale[2].to_bits(),
        },
        frames: d.frames.iter().map(|f| FrameMetaInfo {
            time_bits: f.time.to_bits(),
            offset: f.offset,
        }).collect(),
    })
}

/// Errors of the opd loader.
#[derive(Debug)]
pub enum OpdLoaderError {
    /// The stream does not begin with the format's magic tag.
    Magic,
    /// The stream ends inside the length-prefixed header.
    TruncatedHeader,
    /// The embedded JSON header failed to deserialize.
    HeaderJson(serde_json::Error),
    /// The header names no centroid count.
    MissingCentroidCount,
    /// A displacement width other than one byte: an explicit, finite
    /// extension point of the format, not yet carried by this loader.
    UnsupportedEncoding(usize),
    /// The stream ends inside the centroid table or the frame data.
    Truncated,
    /// A centroid coordinate is not a finite representable value.
    InvalidCoordinate,
    /// A frame's byte extent does not match the centroid count.
    FrameSizeMismatch,
    /// A frame offset precedes the centroid table's end, or decreases.
    InvalidFrameOffsets,
    /// Frame timestamps are negative, non-finite, not strictly
    /// increasing, or end at zero.
    InvalidTimestamps,
}

/// The big-endian 32-bit word at byte offset `off`.
pub open spec fn spec_be32_at(b: Seq<u8>, off: int) -> u32 {
    spec_u32_be(b[off], b[off + 1], b[off + 2], b[off + 3])
}

/// Reads the big-endian 32-bit word at byte offset `off`.
pub fn read_be32(b: &[u8], off: usize) -> (r: u32)
    requires
        off + 4 <= b@.len(),
    ensures
        r == spec_be32_at(b@, off as int),
{
    let blen: usize = b.len();
    u32_from_be(
        *slice_index_get(b, off),
        *slice_index_get(b, off + 1),
        *slice_index_get(b, off + 2),
        *slice_index_get(b, off + 3),
    )
}

/// A stream that begins with the format's magic tag `.opd`.
pub open spec fn spec_opd_magic_ok(b: Seq<u8>) -> bool {
    &&& b.len() >= 4
    &&& b[0] == 46u8
    &&& b[1] == 111u8
    &&& b[2] == 112u8
    &&& b[3] == 100u8
}

/// The big-endian length prefix of the embedded JSON header.
pub open spec fn spec_opd_header_len(b: Seq<u8>) -> int {
    spec_be32_at(b, 4) as int
}

/// The length prefix is present and the header fits the stream.
pub open spec fn spec_opd_len_ok(b: Seq<u8>) -> bool {
    b.len() >= 8 && spec_opd_header_len(b) <= b.len() - 8
}

/// The library-own prefix of a container: the magic tag and a complete
/// length-prefixed header.
pub open spec fn spec_opd_prefix_ok(b: Seq<u8>) -> bool {
    spec_opd_magic_ok(b) && spec_opd_len_ok(b)
}

/// The embedded JSON header document of a stream with a sound prefix.
pub open spec fn spec_opd_json(b: Seq<u8>) -> Seq<u8> {
    b.subrange(8, 8 + spec_opd_header_len(b))
}

/// The body after the JSON header: the centroid table and the frame data.
pub open spec fn spec_opd_body(b: Seq<u8>) -> Seq<u8> {
    b.subrange(8 + spec_opd_header_len(b), b.len() as int)
}

/// The bit pattern of centroid `i`'s coordinate on `axis`, after the
/// 4-byte parent id of its 16-byte record.
pub open spec fn spec_centroid_bits(b: Seq<u8>, i: int, axis: int) -> u32 {
    spec_be32_at(b, 16 * i + 4 + 4 * axis)
}

/// The decoded fixed-point coordinate of centroid `i` on `axis`.
pub open spec fn spec_centroid_coord(b: Seq<u8>, i: int, axis: int) -> Option<i64> {
    spec_f32_to_fixed(spec_centroid_bits(b, i, axis))
}

/// The decoded coordinates of all `n` centroids on one axis.
pub open spec fn spec_opd_coords(b: Seq<u8>, n: int, axis: int) -> Seq<int> {
    Seq::new(n as nat, |i: int| spec_centroid_coord(b, i, axis)->Some_0 as int)
}

/// The middle of the bounding box on one axis (the lower median for an
/// odd extent): what recentering subtracts.
pub open spec fn spec_opd_mid(b: Seq<u8>, n: int, axis: int) -> int {
    let s = spec_opd_coords(b, n, axis);
    seq_min(s) + (seq_max(s) - seq_min(s)) / 2
}

/// The decoded timestamp of frame metadata `f`, in whole milliseconds.
pub open spec fn spec_frame_time(f: FrameMetaInfo) -> Option<u64> {
    spec_f32_to_whole(f.time_bits)
}

/// The byte position of frame `i`'s data in the body: the centroid table,
/// then the frames consecutively, each extent given by the offset deltas
/// of the metadata.
pub open spec fn spec_frame_pos(fs: Seq<FrameMetaInfo>, n: int, i: int) -> int {
    16 * n + fs[i].offset - fs[0].offset
}

/// The displacement of point `k` in frame `i`: three consecutive signed
/// bytes of the frame's data.
pub open spec fn spec_frame_disp(b: Seq<u8>, fs: Seq<FrameMetaInfo>, n: int, i: int, k: int)
    -> Displacement {
    let pos = spec_frame_pos(fs, n, i);
    Displacement {
        x: spec_i8_of_byte(b[pos + 3 * k]),
        y: spec_i8_of_byte(b[pos + 3 * k + 1]),
        z: spec_i8_of_byte(b[pos + 3 * k + 2]),
    }
}

/// The signed reading of one byte, two's complement.
pub open spec fn spec_i8_of_byte(x: u8) -> i8 {
    if x < 128 {
        x as i8
    } else {
        (x - 256) as i8
    }
}

/// Reads one byte as a signed two's-complement value.
pub fn i8_of_byte(x: u8) -> (r: i8)
    ensures
        r == spec_i8_of_byte(x),
{
    if x < 128 {
        x as i8
    } else {
        ((x as i16) - 256) as i8
    }
}

/// A header and body a well-formed opd container must satisfy: a centroid
/// count, one-byte displacement components, a complete centroid table of
/// finite coordinates, frame offsets that begin at or after the table and
/// advance by exactly three bytes per point, a final frame that consumes
/// the rest of the body exactly, and finite, strictly increasing
/// timestamps ending above zero.
pub open spec fn spec_opd_valid(info: OpdHeaderInfo, b: Seq<u8>) -> bool {
    &&& info.num_centroids is Some
    &&& info.precision == 1
    &&& {
        let n = info.num_centroids->Some_0 as int;
        let fs = info.frames@;
        let m = fs.len() as int;
        &&& 16 * n <= b.len()
        &&& forall|i: int, a: int|
            0 <= i < n && 0 <= a < 3 ==> spec_centroid_coord(b, i, a) is Some
        &&& (m > 0 ==> {
            &&& n >= 1
            &&& forall|i: int| 0 <= i < m ==> 16 * n <= #[trigger] fs[i].offset
            &&& forall|i: int|
                0 <= i < m - 1 ==> fs[i + 1].offset - #[trigger] fs[i].offset == 3 * n
            &&& b.len() - spec_frame_pos(fs, n, m - 1) == 3 * n
            &&& forall|i: int| 0 <= i < m ==> #[trigger] spec_frame_time(fs[i]) is Some
            &&& forall|i: int, j: int|
                0 <= i < j < m ==> spec_frame_time(fs[i])->Some_0 < spec_frame_time(
                    fs[j],
                )->Some_0
            &&& spec_frame_time(fs[m - 1])->Some_0 > 0
        })
    }
}

/// Decodes the centroid table: `n` records of a parent id and three
/// big-endian coordinate words each. Fails exactly when some coordinate
/// is not a finite representable value.
fn decode_centroids(body: &[u8], n: usize) -> (r: Result<Vec<Position>, OpdLoaderError>)
    requires
        16 * n <= body@.len(),
    ensures
        r is Ok <==> forall|i: int, a: int|
            0 <= i < n && 0 <= a < 3 ==> spec_centroid_coord(body@, i, a) is Some,
        r matches Ok(ps) ==> {
            &&& ps@.len() == n
            &&& forall|i: int|
                0 <= i < n ==> #[trigger] ps@[i] == (Position {
                    x: spec_centroid_coord(body@, i, 0)->Some_0,
                    y: spec_centroid_coord(body@, i, 1)->Some_0,
                    z: spec_centroid_coord(body@, i, 2)->Some_0,
                })
        },
        r matches Err(e) ==> e is InvalidCoordinate,
{
    let blen: usize = body.len();
    let mut ps: Vec<Position> = Vec::new();
    let mut i: usize = 0;
    while i < n
        invariant
            i <= n,
            16 * n <= body@.len() <= usize::MAX,
            ps@.len() == i,
            forall|j: int, a: int|
                0 <= j < i && 0 <= a < 3 ==> spec_centroid_coord(body@, j, a) is Some,
            forall|j: int|
                0 <= j < i ==> #[trigger] ps@[j] == (Position {
                    x: spec_centroid_coord(body@, j, 0)->Some_0,
                    y: spec_centroid_coord(body@, j, 1)->Some_0,
                    z: spec_centroid_coord(body@, j, 2)->Some_0,
                }),
        decreases n - i,
    {
        let bits_x = read_be32(body, 16 * i + 4);
        let bits_y = read_be32(body, 16 * i + 8);
        let bits_z = read_be32(body, 16 * i + 12);
        proof {
            assert(bits_x == spec_centroid_bits(body@, i as int, 0));
            assert(bits_y == spec_centroid_bits(body@, i as int, 1));
            assert(bits_z == spec_centroid_bits(body@, i as int, 2));
        }
        let x = match f32_bits_to_fixed(bits_x) {
            Some(v) => v,
            None => {
                proof {
                    assert(spec_centroid_coord(body@, i as int, 0) is None);
                }
                return Err(OpdLoaderError::InvalidCoordinate);
            },
        };
        let y = match f32_bits_to_fixed(bits_y) {
            Some(v) => v,
            None => {
                proof {
                    assert(spec_centroid_coord(body@, i as int, 1) is None);
                }
                return Err(OpdLoaderError::InvalidCoordinate);
            },
        };
        let z = match f32_bits_to_fixed(bits_z) {
            Some(v) => v,
            None => {
                proof {
                    assert(spec_centroid_coord(body@, i as int, 2) is None);
                }
                return Err(OpdLoaderError::InvalidCoordinate);
            },
        };
        ps.push(Position { x, y, z });
        i = i + 1;
    }
    Ok(ps)
}

/// Offsets that advance by exactly `3 * n` form an arithmetic progression
/// from the first one.
proof fn lemma_offset_progression(fs: Seq<FrameMetaInfo>, n: int, i: int)
    requires
        0 <= i < fs.len(),
        forall|j: int| 0 <= j < fs.len() - 1 ==> fs[j + 1].offset - #[trigger] fs[j].offset == 3
            * n,
    ensures
        fs[i].offset - fs[0].offset == 3 * n * i,
    decreases i,
{
    if i > 0 {
        lemma_offset_progression(fs, n, i - 1);
        assert(fs[i].offset - fs[i - 1].offset == 3 * n);
        assert(3 * n * (i - 1) + 3 * n == 3 * n * i) by (nonlinear_arith);
    } else {
        assert(3 * n * 0 == 0) by (nonlinear_arith);
    }
}

/// Adjacent strict increase is strict increase everywhere.
proof fn lemma_strictly_increasing(s: Seq<u64>, i: int, j: int)
    requires
        forall|k: int| 0 <= k < s.len() - 1 ==> #[trigger] s[k] < s[k + 1],
        0 <= i < j < s.len(),
    ensures
        s[i] < s[j],
    decreases j - i,
{
    if j > i + 1 {
        lemma_strictly_increasing(s, i, j - 1);
    }
    assert(s[j - 1] < s[j]);
}

/// Validates the frame metadata against the body and builds the keyframe
/// track: each frame's extent must be exactly three bytes per point, the
/// final frame must consume the rest of the body, and the timestamps must
/// decode to finite, strictly increasing whole milliseconds ending above
/// zero. An empty metadata list builds no track.
fn build_frames(body: &[u8], n: usize, metas: &Vec<FrameMetaInfo>) -> (r: Result<
    Option<Vec<Keyframe>>,
    OpdLoaderError,
>)
    requires
        16 * n <= body@.len(),
    ensures
        r is Ok <==> (metas@.len() > 0 ==> {
            let fs = metas@;
            let m = fs.len() as int;
            &&& n >= 1
            &&& forall|i: int| 0 <= i < m ==> 16 * n <= #[trigger] fs[i].offset
            &&& forall|i: int|
                0 <= i < m - 1 ==> fs[i + 1].offset - #[trigger] fs[i].offset == 3 * (n as int)
            &&& body@.len() - spec_frame_pos(fs, n as int, m - 1) == 3 * n
            &&& forall|i: int| 0 <= i < m ==> #[trigger] spec_frame_time(fs[i]) is Some
            &&& forall|i: int, j: int|
                0 <= i < j < m ==> spec_frame_time(fs[i])->Some_0 < spec_frame_time(
                    fs[j],
                )->Some_0
            &&& spec_frame_time(fs[m - 1])->Some_0 > 0
        }),
        r matches Ok(opt) ==> {
            let fs = metas@;
            let m = fs.len() as int;
            &&& (m == 0 ==> opt is None)
            &&& (m > 0 ==> (opt matches Some(kfs) && kfs@.len() == m && forall|i: int|
                0 <= i < m ==> {
                    &&& (#[trigger] kfs@[i]).time_ms == spec_frame_time(fs[i])->Some_0
                    &&& kfs@[i].displacements@.len() == n
                    &&& forall|k: int|
                        0 <= k < n ==> #[trigger] kfs@[i].displacements@[k] == spec_frame_disp(
                            body@,
                            fs,
                            n as int,
                            i,
                            k,
                        )
                }))
        },
        r matches Err(e) ==> (e is Truncated || e is InvalidFrameOffsets || e is FrameSizeMismatch
            || e is InvalidTimestamps),
{
    let ghost fs = metas@;
    let m = metas.len();
    if m == 0 {
        return Ok(None);
    }
    if n == 0 {
        // A frame's extent of three bytes per point cannot carry a frame
        // for an empty point set.
        return Err(OpdLoaderError::FrameSizeMismatch);
    }
    let blen: usize = body.len();
    let mut i: usize = 0;
    while i < m
        invariant
            i <= m,
            m == fs.len(),
            metas@ == fs,
            16 * n <= blen,
            forall|j: int| 0 <= j < i ==> 16 * (n as int) <= #[trigger] fs[j].offset,
        decreases m - i,
    {
        if metas[i].offset < 16 * n {
            return Err(OpdLoaderError::InvalidFrameOffsets);
        }
        i = i + 1;
    }
    let mut i: usize = 0;
    while i + 1 < m
        invariant
            i < m,
            m == fs.len(),
            metas@ == fs,
            16 * n <= blen <= usize::MAX,
            n >= 1,
            forall|j: int|
                0 <= j < i ==> fs[j + 1].offset - #[trigger] fs[j].offset == 3 * (n as int),
        decreases m - i,
    {
        let a = metas[i].offset;
        let b = metas[i + 1].offset;
        if b < a || b - a != 3 * n {
            return Err(OpdLoaderError::FrameSizeMismatch);
        }
        i = i + 1;
    }
    proof {
        lemma_offset_progression(fs, n as int, m - 1);
    }
    // The whole body must be the centroid table plus m frames of 3n bytes.
    proof {
        assert(16 * (n as int) <= blen < 0x10000000000000000);
        assert(16 * (n as int) + 3 * (n as int) * (m as int) < 0x100000000000000000000000000000000)
            by (nonlinear_arith)
            requires
                0 <= n,
                16 * (n as int) < 0x10000000000000000,
                0 <= m < 0x10000000000000000,
        ;
    }
    let need: u128 = 16 * (n as u128) + 3 * (n as u128) * (m as u128);
    if (blen as u128) != need {
        proof {
            assert(spec_frame_pos(fs, n as int, m - 1) == 16 * n + 3 * (n as int) * (m - 1));
            assert(16 * (n as int) + 3 * (n as int) * (m as int - 1) + 3 * n != blen ==> body@.len()
                - spec_frame_pos(fs, n as int, m - 1) != 3 * n);
            assert(3 * (n as int) * (m as int) == 3 * (n as int) * (m as int - 1) + 3 * (
            n as int)) by (nonlinear_arith);
        }
        return Err(OpdLoaderError::FrameSizeMismatch);
    }
    proof {
        assert(3 * (n as int) * (m as int) == 3 * (n as int) * (m as int - 1) + 3 * (n as int))
            by (nonlinear_arith);
        assert(body@.len() - spec_frame_pos(fs, n as int, m - 1) == 3 * n);
        assert(forall|i_: int|
            0 <= i_ < m ==> #[trigger] spec_frame_pos(fs, n as int, i_) == 16 * n + 3 * (
            n as int) * i_) by {
            assert forall|i_: int| 0 <= i_ < m implies #[trigger] spec_frame_pos(
                fs,
                n as int,
                i_,
            ) == 16 * n + 3 * (n as int) * i_ by {
                lemma_offset_progression(fs, n as int, i_);
            }
        }
    }
    // Decode and validate the timestamps.
    let mut times: Vec<u64> = Vec::new();
    let mut i: usize = 0;
    while i < m
        invariant
            i <= m,
            m == fs.len(),
            metas@ == fs,
            times@.len() == i,
            forall|j: int| 0 <= j < i ==> #[trigger] spec_frame_time(fs[j]) is Some,
            forall|j: int|
                0 <= j < i ==> #[trigger] times@[j] == spec_frame_time(fs[j])->Some_0,
        decreases m - i,
    {
        let (time_bits, _offset) = frame_meta_info_fields(&metas[i]);
        match f32_bits_to_whole(time_bits) {
            Some(t) => {
                times.push(t);
            },
            None => {
                return Err(OpdLoaderError::InvalidTimestamps);
            },
        }
        i = i + 1;
    }
    let mut i: usize = 0;
    while i + 1 < m
        invariant
            i < m,
            m == times@.len(),
            m == fs.len(),
            metas@ == fs,
            forall|j: int| 0 <= j < m ==> #[trigger] times@[j] == spec_frame_time(fs[j])->Some_0,
            forall|j: int| 0 <= j < i ==> #[trigger] times@[j] < times@[j + 1],
        decreases m - i,
    {
        if times[i + 1] <= times[i] {
            proof {
                assert(spec_frame_time(fs[i as int])->Some_0 >= spec_frame_time(
                    fs[i as int + 1],
                )->Some_0);
            }
            return Err(OpdLoaderError::InvalidTimestamps);
        }
        i = i + 1;
    }
    proof {
        assert forall|i_: int, j_: int| 0 <= i_ < j_ < m implies spec_frame_time(
            fs[i_],
        )->Some_0 < spec_frame_time(fs[j_])->Some_0 by {
            lemma_strictly_increasing(times@, i_, j_);
        }
    }
    if times[m - 1] == 0 {
        return Err(OpdLoaderError::InvalidTimestamps);
    }
    // Build the keyframes: frame i's data is the 3n bytes at its position.
    let mut kfs: Vec<Keyframe> = Vec::new();
    let mut i: usize = 0;
    while i < m
        invariant
            i <= m,
            m == fs.len(),
            metas@ == fs,
            m == times@.len(),
            n >= 1,
            16 * n <= blen,
            blen == body@.len(),
            (blen as int) == 16 * n + 3 * (n as int) * (m as int),
            forall|j: int| 0 <= j < m ==> #[trigger] times@[j] == spec_frame_time(fs[j])->Some_0,
            forall|j: int|
                0 <= j < m ==> #[trigger] spec_frame_pos(fs, n as int, j) == 16 * n + 3 * (
                n as int) * j,
            kfs@.len() == i,
            forall|j: int|
                0 <= j < i ==> {
                    &&& (#[trigger] kfs@[j]).time_ms == spec_frame_time(fs[j])->Some_0
                    &&& kfs@[j].displacements@.len() == n
                    &&& forall|k: int|
                        0 <= k < n ==> #[trigger] kfs@[j].displacements@[k] == spec_frame_disp(
                            body@,
                            fs,
                            n as int,
                            j,
                            k,
                        )
                },
        decreases m - i,
    {
        proof {
            assert(3 * (n as int) * (i as int) + 3 * (n as int) <= 3 * (n as int) * (m as int))
                by (nonlinear_arith)
                requires
                    n >= 1,
                    0 <= i < m,
            ;
        }
        let pos: usize = 16 * n + 3 * n * i;
        let mut displacements: Vec<Displacement> = Vec::new();
        let mut k: usize = 0;
        while k < n
            invariant
                k <= n,
                n >= 1,
                i < m,
                metas@ == fs,
                blen == body@.len(),
                pos == spec_frame_pos(fs, n as int, i as int),
                pos + 3 * n <= blen,
                displacements@.len() == k,
                forall|q: int|
                    0 <= q < k ==> #[trigger] displacements@[q] == spec_frame_disp(
                        body@,
                        fs,
                        n as int,
                        i as int,
                        q,
                    ),
            decreases n - k,
        {
            let base = pos + 3 * k;
            let d = Displacement {
                x: i8_of_byte(*slice_index_get(body, base)),
                y: i8_of_byte(*slice_index_get(body, base + 1)),
                z: i8_of_byte(*slice_index_get(body, base + 2)),
            };
            displacements.push(d);
            k = k + 1;
        }
        kfs.push(Keyframe { time_ms: times[i], displacements });
        i = i + 1;
    }
    Ok(Some(kfs))
}

/// The middle of a coordinate range: the least value plus half the
/// extent, the lower median for an odd extent.
pub open spec fn spec_mid(s: Seq<int>) -> int {
    seq_min(s) + (seq_max(s) - seq_min(s)) / 2
}

/// Recenters a nonempty position set to the middle of its bounding box.
fn recenter(raw: &Vec<Position>) -> (r: Vec<Position>)
    requires
        raw@.len() > 0,
        forall|i: int|
            0 <= i < raw@.len() ==> (#[trigger] raw@[i]).x > i64::MIN && raw@[i].y > i64::MIN
                && raw@[i].z > i64::MIN,
    ensures
        r@.len() == raw@.len(),
        forall|i: int|
            0 <= i < raw@.len() ==> #[trigger] r@[i] == (Position {
                x: (raw@[i].x - spec_mid(xs_of(raw@))) as i64,
                y: (raw@[i].y - spec_mid(ys_of(raw@))) as i64,
                z: (raw@[i].z - spec_mid(zs_of(raw@))) as i64,
            }),
{
    let (mn, mx) = crate::las_loader::axis_bounds(raw);
    proof {
        lemma_seq_min_max_bounds(xs_of(raw@), 0);
        lemma_seq_min_max_bounds(ys_of(raw@), 0);
        lemma_seq_min_max_bounds(zs_of(raw@), 0);
        assert(xs_of(raw@)[0] == raw@[0].x);
        assert(ys_of(raw@)[0] == raw@[0].y);
        assert(zs_of(raw@)[0] == raw@[0].z);
        lemma_seq_min_max_attained(xs_of(raw@));
        lemma_seq_min_max_attained(ys_of(raw@));
        lemma_seq_min_max_attained(zs_of(raw@));
        let kx = choose|k: int| 0 <= k < xs_of(raw@).len() && xs_of(raw@)[k] == seq_min(xs_of(raw@));
        assert(xs_of(raw@)[kx] == raw@[kx].x);
        let ky = choose|k: int| 0 <= k < ys_of(raw@).len() && ys_of(raw@)[k] == seq_min(ys_of(raw@));
        assert(ys_of(raw@)[ky] == raw@[ky].y);
        let kz = choose|k: int| 0 <= k < zs_of(raw@).len() && zs_of(raw@)[k] == seq_min(zs_of(raw@));
        assert(zs_of(raw@)[kz] == raw@[kz].z);
        assert(mn.x > i64::MIN && mn.y > i64::MIN && mn.z > i64::MIN);
    }
    let mid_x: i128 = (mn.x as i128) + ((mx.x as i128) - (mn.x as i128)) / 2;
    let mid_y: i128 = (mn.y as i128) + ((mx.y as i128) - (mn.y as i128)) / 2;
    let mid_z: i128 = (mn.z as i128) + ((mx.z as i128) - (mn.z as i128)) / 2;
    let mut r: Vec<Position> = Vec::new();
    let mut i: usize = 0;
    while i < raw.len()
        invariant
            i <= raw@.len(),
            raw@.len() > 0,
            forall|j: int|
                0 <= j < raw@.len() ==> (#[trigger] raw@[j]).x > i64::MIN && raw@[j].y > i64::MIN
                    && raw@[j].z > i64::MIN,
            mn.x as int == seq_min(xs_of(raw@)),
            mn.y as int == seq_min(ys_of(raw@)),
            mn.z as int == seq_min(zs_of(raw@)),
            mx.x as int == seq_max(xs_of(raw@)),
            mx.y as int == seq_max(ys_of(raw@)),
            mx.z as int == seq_max(zs_of(raw@)),
            mn.x <= mx.x && mn.y <= mx.y && mn.z <= mx.z,
            mn.x > i64::MIN && mn.y > i64::MIN && mn.z > i64::MIN,
            mid_x as int == (mn.x as int) + ((mx.x as int) - (mn.x as int)) / 2,
            mid_y as int == (mn.y as int) + ((mx.y as int) - (mn.y as int)) / 2,
            mid_z as int == (mn.z as int) + ((mx.z as int) - (mn.z as int)) / 2,
            mid_x as int == spec_mid(xs_of(raw@)),
            mid_y as int == spec_mid(ys_of(raw@)),
            mid_z as int == spec_mid(zs_of(raw@)),
            r@.len() == i,
            forall|j: int|
                0 <= j < i ==> #[trigger] r@[j] == (Position {
                    x: (raw@[j].x - spec_mid(xs_of(raw@))) as i64,
                    y: (raw@[j].y - spec_mid(ys_of(raw@))) as i64,
                    z: (raw@[j].z - spec_mid(zs_of(raw@))) as i64,
                }),
        decreases raw@.len() - i,
    {
        proof {
            lemma_seq_min_max_bounds(xs_of(raw@), i as int);
            lemma_seq_min_max_bounds(ys_of(raw@), i as int);
            lemma_seq_min_max_bounds(zs_of(raw@), i as int);
            lemma_seq_min_max_bounds(xs_of(raw@), 0);
            lemma_seq_min_max_bounds(ys_of(raw@), 0);
            lemma_seq_min_max_bounds(zs_of(raw@), 0);
            assert(xs_of(raw@)[i as int] == raw@[i as int].x);
            assert(ys_of(raw@)[i as int] == raw@[i as int].y);
            assert(zs_of(raw@)[i as int] == raw@[i as int].z);
            assert(xs_of(raw@)[0] == raw@[0].x);
            assert(ys_of(raw@)[0] == raw@[0].y);
            assert(zs_of(raw@)[0] == raw@[0].z);
        }
        let p = raw[i];
        proof {
            assert(mn.x as int <= p.x as int <= mx.x as int);
            assert(mn.y as int <= p.y as int <= mx.y as int);
            assert(mn.z as int <= p.z as int <= mx.z as int);
            assert(mn.x as int <= mid_x as int <= mx.x as int);
            assert(mn.y as int <= mid_y as int <= mx.y as int);
            assert(mn.z as int <= mid_z as int <= mx.z as int);
        }
        let nx: i128 = (p.x as i128) - mid_x;
        let ny: i128 = (p.y as i128) - mid_y;
        let nz: i128 = (p.z as i128) - mid_z;
        proof {
            let ex = (mx.x as int) - (mn.x as int);
            let ey = (mx.y as int) - (mn.y as int);
            let ez = (mx.z as int) - (mn.z as int);
            assert(nx as int <= ex - ex / 2 && nx as int >= -(ex / 2));
            assert(ny as int <= ey - ey / 2 && ny as int >= -(ey / 2));
            assert(nz as int <= ez - ez / 2 && nz as int >= -(ez / 2));
            assert(i64::MIN < nx as int <= i64::MAX);
            assert(i64::MIN < ny as int <= i64::MAX);
            assert(i64::MIN < nz as int <= i64::MAX);
        }
        r.push(Position { x: nx as i64, y: ny as i64, z: nz as i64 });
        i = i + 1;
    }
    r
}

/// The asset a well-formed container owes: the recentered centroid
/// positions over the fixed-point denominator, no colors, the header's
/// scale bits, and the keyframe track read from the frame data (none for
/// an empty metadata list).
pub open spec fn spec_opd_asset(info: OpdHeaderInfo, body: Seq<u8>, a: PointCloudAsset) -> bool {
    let n = info.num_centroids->Some_0 as int;
    let fs = info.frames@;
    let m = fs.len() as int;
    &&& a.positions@.len() == n
    &&& a.position_denom == OPD_POSITION_DENOM
    &&& forall|i: int|
        0 <= i < n ==> #[trigger] a.positions@[i] == (Position {
            x: (spec_centroid_coord(body, i, 0)->Some_0 - spec_opd_mid(body, n, 0)) as i64,
            y: (spec_centroid_coord(body, i, 1)->Some_0 - spec_opd_mid(body, n, 1)) as i64,
            z: (spec_centroid_coord(body, i, 2)->Some_0 - spec_opd_mid(body, n, 2)) as i64,
        })
    &&& a.colors is None
    &&& a.animation_scale == info.scale
    &&& (m == 0 ==> a.animation is None)
    &&& (m > 0 ==> (a.animation matches Some(kfs) && kfs@.len() == m && forall|i: int|
        0 <= i < m ==> {
            &&& (#[trigger] kfs@[i]).time_ms == spec_frame_time(fs[i])->Some_0
            &&& kfs@[i].displacements@.len() == n
            &&& forall|k: int|
                0 <= k < n ==> #[trigger] kfs@[i].displacements@[k] == spec_frame_disp(
                    body,
                    fs,
                    n,
                    i,
                    k,
                )
        }))
    &&& a.wf()
}

/// Builds the asset of a decoded header and the body that follows the
/// JSON document: the centroid table becomes the positions, recentered to
/// the middle of their bounding box over the fixed-point denominator, and
/// the frame data becomes the keyframe track. Succeeds exactly on a
/// well-formed container.
pub fn build_opd_asset(info: &OpdHeaderInfo, body: &[u8]) -> (r: Result<
    PointCloudAsset,
    OpdLoaderError,
>)
    ensures
        r is Ok <==> spec_opd_valid(*info, body@),
        r matches Ok(a) ==> spec_opd_asset(*info, body@, a),
        r matches Err(e) ==> !(e is Magic) && !(e is TruncatedHeader) && !(e is HeaderJson),
{
    let blen: usize = body.len();
    let n = match info.num_centroids {
        Some(n) => n,
        None => {
            return Err(OpdLoaderError::MissingCentroidCount);
        },
    };
    if info.precision != 1 {
        return Err(OpdLoaderError::UnsupportedEncoding(info.precision));
    }
    if n > blen / 16 {
        return Err(OpdLoaderError::Truncated);
    }
    let raw = match decode_centroids(body, n) {
        Ok(ps) => ps,
        Err(e) => {
            return Err(e);
        },
    };
    let animation = match build_frames(body, n, &info.frames) {
        Ok(a) => a,
        Err(e) => {
            return Err(e);
        },
    };
    let positions = if n == 0 {
        Vec::new()
    } else {
        proof {
            assert forall|i: int|
                0 <= i < raw@.len() implies (#[trigger] raw@[i]).x > i64::MIN && raw@[i].y
                > i64::MIN && raw@[i].z > i64::MIN by {
                reveal(crate::numeric::spec_f32_decode);
            }
            assert(xs_of(raw@) =~= spec_opd_coords(body@, n as int, 0));
            assert(ys_of(raw@) =~= spec_opd_coords(body@, n as int, 1));
            assert(zs_of(raw@) =~= spec_opd_coords(body@, n as int, 2));
        }
        recenter(&raw)
    };
    let asset = PointCloudAsset {
        positions,
        position_denom: OPD_POSITION_DENOM,
        colors: None,
        animation,
        animation_scale: info.scale,
    };
    proof {
        assert(asset.wf());
    }
    Ok(asset)
}

/// The plain fields of one frame's metadata record.
fn frame_meta_info_fields(m: &FrameMetaInfo) -> (r: (u32, usize))
    ensures
        r.0 == m.time_bits,
        r.1 == m.offset,
{
    (m.time_bits, m.offset)
}

/// The loader for opd byte streams.
#[derive(Clone, Copy, PartialEq, Eq, Structural, Debug)]
pub struct OpdLoader;

impl OpdLoader {
    /// The file extensions this loader claims.
    pub fn extensions(&self) -> (r: Vec<&'static str>)
        ensures
            r@.len() == 1,
            r@[0]@ == "opd"@,
    {
        let mut r: Vec<&'static str> = Vec::new();
        r.push("opd");
        r
    }

    /// Decodes an opd byte stream: the magic tag, the length-prefixed
    /// JSON header (the one outside call), then the verified container
    /// grammar of `build_opd_asset`. Succeeds exactly when the prefix is
    /// sound, the header deserializes, and the container is well formed;
    /// the asset is then `spec_opd_asset` of that header and body.
    pub fn load_opd(bytes: &[u8]) -> (r: Result<PointCloudAsset, OpdLoaderError>)
        ensures
            r is Ok <==> (spec_opd_prefix_ok(bytes@) && opd_header_of(spec_opd_json(bytes@))
                is Some && spec_opd_valid(
                opd_header_of(spec_opd_json(bytes@))->Some_0,
                spec_opd_body(bytes@),
            )),
            r matches Ok(a) ==> spec_opd_asset(
                opd_header_of(spec_opd_json(bytes@))->Some_0,
                spec_opd_body(bytes@),
                a,
            ),
            r matches Err(e) ==> {
                &&& (e is Magic) <==> !spec_opd_magic_ok(bytes@)
                &&& (e is TruncatedHeader) <==> (spec_opd_magic_ok(bytes@) && !spec_opd_len_ok(
                    bytes@,
                ))
                &&& (e is HeaderJson) <==> (spec_opd_prefix_ok(bytes@) && opd_header_of(
                    spec_opd_json(bytes@),
                ) is None)
            },
    {
        let blen: usize = bytes.len();
        if blen < 4 {
            return Err(OpdLoaderError::Magic);
        }
        let m0 = *slice_index_get(bytes, 0);
        let m1 = *slice_index_get(bytes, 1);
        let m2 = *slice_index_get(bytes, 2);
        let m3 = *slice_index_get(bytes, 3);
        if !(m0 == 46 && m1 == 111 && m2 == 112 && m3 == 100) {
            return Err(OpdLoaderError::Magic);
        }
        if blen < 8 {
            return Err(OpdLoaderError::TruncatedHeader);
        }
        let hlen = read_be32(bytes, 4) as usize;
        if blen - 8 < hlen {
            return Err(OpdLoaderError::TruncatedHeader);
        }
        let json = slice_subrange(bytes, 8, 8 + hlen);
        let info = match parse_opd_header_info(json) {
            Ok(info) => info,
            Err(e) => {
                return Err(OpdLoaderError::HeaderJson(e));
            },
        };
        proof {
            assert(json@ == spec_opd_json(bytes@));
            assert(opd_header_of(spec_opd_json(bytes@)) == Some(info));
        }
        let body = slice_subrange(bytes, 8 + hlen, blen);
        proof {
            assert(body@ == spec_opd_body(bytes@));
        }
        match build_opd_asset(&info, body) {
            Ok(a) => Ok(a),
            Err(e) => Err(e),
        }
    }

    /// The loader entry point: reads the whole byte stream as one opd
    /// container, with `load_opd`'s exact contract.
    pub fn load(&self, bytes: &[u8]) -> (r: Result<PointCloudAsset, OpdLoaderError>)
        ensures
            r is Ok <==> (spec_opd_prefix_ok(bytes@) && opd_header_of(spec_opd_json(bytes@))
                is Some && spec_opd_valid(
                opd_header_of(spec_opd_json(bytes@))->Some_0,
                spec_opd_body(bytes@),
            )),
            r matches Ok(a) ==> spec_opd_asset(
                opd_header_of(spec_opd_json(bytes@))->Some_0,
                spec_opd_body(bytes@),
                a,
            ),
            r matches Err(e) ==> {
                &&& (e is Magic) <==> !spec_opd_magic_ok(bytes@)
                &&& (e is TruncatedHeader) <==> (spec_opd_magic_ok(bytes@) && !spec_opd_len_ok(
                    bytes@,
                ))
                &&& (e is HeaderJson) <==> (spec_opd_prefix_ok(bytes@) && opd_header_of(
                    spec_opd_json(bytes@),
                ) is None)
            },
    {
        Self::load_opd(bytes)
    }
}

} // verus!
