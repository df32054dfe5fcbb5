//! The loader for static colored point sets in the las format.
//!
//! The las crate decodes the byte stream into attributed points; that call
//! stands behind a trusted wrapper handing out plain integer records. All
//! of the loader's own logic — the fixed axis-swap convention of the
//! format, the running bounding box, and the normalization of every point
//! into the unit cube as exact rationals — is verified in
//! `build_asset_from_records`.

use vstd::prelude::*;

use crate::numeric::{
    lemma_seq_min_max_bounds, seq_max, seq_min, spec_u16_le_at, spec_u32_le_at, spec_u64_le_at,
    u16_le_at, u32_le_at, u64_le_at,
};
use vstd::slice::slice_index_get;
use crate::point_cloud::{PointCloudAsset, PointColor, Position, ScaleBits};

use las::Read;

verus! {

/// The channel denominator of a direct RGB color: `u16::MAX`.
pub const COLOR_DENOM_RGB: u16 = 65535;

/// The channel denominator of the intensity fallback: the intensity is
/// scaled by one hundredth, so a bright return can exceed a full channel.
pub const COLOR_DENOM_INTENSITY: u16 = 100;

/// A direct per-point color as the file stores it.
#[derive(Clone, Copy, PartialEq, Eq, Structural, Debug)]
pub struct LasColor {
    pub red: u16,
    pub green: u16,
    pub blue: u16,
}

/// One point as read from the file, with coordinates quantized to whole
/// units toward zero.
#[derive(Clone, Copy, PartialEq, Eq, Structural, Debug)]
pub struct LasPointRecord {
    pub x: i64,
    pub y: i64,
    pub z: i64,
    pub intensity: u16,
    pub color: Option<LasColor>,
}

#[verifier::external_type_specification]
#[verifier::external_body]
pub struct ExLasError(las::Error);

/// The records the las crate decodes from a byte stream, when it accepts
/// the stream; `None` when it rejects it. The decode reads nothing but the
/// bytes, so the result is a function of them alone.
pub uninterp spec fn las_records_of(bytes: Seq<u8>) -> Option<Seq<LasPointRecord>>;

/// The one header shape on which the decoder's size arithmetic overflows
/// instead of erroring: a complete fixed-size header carrying the format's
/// magic tag, the one version whose 64-bit record count is honored, a zero
/// legacy count selecting that 64-bit count, and a point-data end —
/// data offset plus count times record length, the product the decoder
/// forms — beyond 64 bits. The loader rejects exactly these streams
/// before the decode. Field offsets are those of the fixed-size header:
/// version at 24, data offset at 96, record length at 105, legacy count
/// at 107, 64-bit count at 247.
pub open spec fn spec_las_size_overflows(b: Seq<u8>) -> bool {
    &&& b.len() >= 375
    &&& b[0] == 76u8 && b[1] == 65u8 && b[2] == 83u8 && b[3] == 70u8
    &&& b[24] == 1u8 && b[25] == 4u8
    &&& spec_u32_le_at(b, 107) == 0
    &&& spec_u32_le_at(b, 96) + spec_u64_le_at(b, 247) * spec_u16_le_at(b, 105) > u64::MAX
}

/// Tests whether a stream's header would overflow the decoder's 64-bit
/// size arithmetic.
fn las_size_overflows(bytes: &[u8]) -> (r: bool)
    ensures
        r == spec_las_size_overflows(bytes@),
{
    let blen: usize = bytes.len();
    if blen < 375 {
        return false;
    }
    if !(*slice_index_get(bytes, 0) == 76 && *slice_index_get(bytes, 1) == 65
        && *slice_index_get(bytes, 2) == 83 && *slice_index_get(bytes, 3) == 70) {
        return false;
    }
    if !(*slice_index_get(bytes, 24) == 1 && *slice_index_get(bytes, 25) == 4) {
        return false;
    }
    if u32_le_at(bytes, 107) != 0 {
        return false;
    }
    let offset = u32_le_at(bytes, 96);
    let count = u64_le_at(bytes, 247);
    let length = u16_le_at(bytes, 105);
    proof {
        assert((count as int) * (length as int) < 0x10000000000000000 * 0x10000)
            by (nonlinear_arith)
            requires
                0 <= count < 0x10000000000000000,
                0 <= length < 0x10000,
        ;
    }
    let total: u128 = (offset as u128) + (count as u128) * (length as u128);
    total > u64::MAX as u128
}

/// Relies on las::Reader: decodes a complete las byte stream into points,
/// or fails on a malformed header or a truncated point record without
/// panicking — except on the one forged-header shape the `requires`
/// leaves out, where the decoder's 64-bit size arithmetic would overflow
/// and abort. Each point is handed out as a plain record: the transformed
/// coordinates truncated toward zero to whole units, saturating at the
/// 64-bit bounds and mapping NaN to zero, with the intensity and the
/// color when the point format carries one. Compressed (laszip) streams
/// are rejected with an error in this build.
#[verifier::external_body]
fn read_las_points(bytes: &[u8]) -> (r: Result<Vec<LasPointRecord>, las::Error>)
    requires
        !spec_las_size_overflows(bytes@),
    ensures
        r matches Ok(v) ==> Some(v@) == las_records_of(bytes@),
        r is Err <==> las_records_of(bytes@) is None,
{
    let reader = las::Reader::new(std::io::Cursor::new(bytes));
    let mut reader = match reader {
        Ok(reader) => reader,
        Err(e) => return Err(e),
    };
    reader.points().map(|p| {
        p.map(|p| LasPointRecord {
            x: p.x as i64,
            y: p.y as i64,
            z: p.z as i64,
            intensity: p.intensity,
            color: p.color.map(|c| LasColor { red: c.red, green: c.green, blue: c.blue }),
        })
    }).collect()
}

/// Errors of the las loader.
#[derive(Debug)]
pub enum LasLoaderError {
    /// The las crate rejected the byte stream.
    Parse(las::Error),
    /// The coordinate span of the file exceeds the fixed-point range.
    RangeTooLarge,
    /// The header declares a 64-bit record count and record length whose
    /// product exceeds 64-bit size arithmetic: no stream can hold the
    /// point data it claims.
    SizeOverflow,
}

/// The fixed axis-swap convention of the format: the source stores
/// east/north/up as x/y/z, the renderer wants up on the middle axis, so
/// the second and third axes are exchanged.
pub open spec fn spec_las_axes(r: LasPointRecord) -> Position {
    Position { x: r.x, y: r.z, z: r.y }
}

/// Applies the format's axis-swap convention to one record.
pub fn las_axis_convention(r: &LasPointRecord) -> (p: Position)
    ensures
        p == spec_las_axes(*r),
{
    Position { x: r.x, y: r.z, z: r.y }
}

/// The color of one record: the direct RGB channels over `u16::MAX`, or
/// the intensity over one hundred broadcast across all three channels.
pub open spec fn spec_las_color(r: LasPointRecord) -> PointColor {
    match r.color {
        Some(c) => PointColor {
            red: c.red,
            green: c.green,
            blue: c.blue,
            denom: COLOR_DENOM_RGB,
        },
        None => PointColor {
            red: r.intensity,
            green: r.intensity,
            blue: r.intensity,
            denom: COLOR_DENOM_INTENSITY,
        },
    }
}

/// The swapped positions of a record sequence.
pub open spec fn spec_las_positions(records: Seq<LasPointRecord>) -> Seq<Position> {
    records.map_values(|r: LasPointRecord| spec_las_axes(r))
}

/// The per-axis coordinate sequences of a position sequence.
pub open spec fn xs_of(ps: Seq<Position>) -> Seq<int> {
    ps.map_values(|p: Position| p.x as int)
}

pub open spec fn ys_of(ps: Seq<Position>) -> Seq<int> {
    ps.map_values(|p: Position| p.y as int)
}

pub open spec fn zs_of(ps: Seq<Position>) -> Seq<int> {
    ps.map_values(|p: Position| p.z as int)
}

/// The uniform scale of a record set: the largest per-axis extent of its
/// bounding box, after the axis swap.
pub open spec fn spec_las_scale(records: Seq<LasPointRecord>) -> int {
    let ps = spec_las_positions(records);
    let ex = seq_max(xs_of(ps)) - seq_min(xs_of(ps));
    let ey = seq_max(ys_of(ps)) - seq_min(ys_of(ps));
    let ez = seq_max(zs_of(ps)) - seq_min(zs_of(ps));
    if ex >= ey && ex >= ez {
        ex
    } else if ey >= ez {
        ey
    } else {
        ez
    }
}

/// The position denominator of the built asset: the uniform scale, or one
/// when every point coincides (a degenerate cloud maps to the origin).
pub open spec fn spec_las_denom(records: Seq<LasPointRecord>) -> int {
    if spec_las_scale(records) > 0 {
        spec_las_scale(records)
    } else {
        1
    }
}

/// The normalized numerators of record `i`: the swapped position,
/// translated by the per-axis minimum. Over the denominator they lie in
/// the unit cube, the extremal points exactly on its faces.
pub open spec fn spec_las_normalized(records: Seq<LasPointRecord>, i: int) -> Position {
    let ps = spec_las_positions(records);
    Position {
        x: (ps[i].x - seq_min(xs_of(ps))) as i64,
        y: (ps[i].y - seq_min(ys_of(ps))) as i64,
        z: (ps[i].z - seq_min(zs_of(ps))) as i64,
    }
}

/// The asset shape the normalization owes for a record set: one position
/// per record, the translated numerators over the dominant-extent
/// denominator, one exact-rational color per record, no animation, a zero
/// scale, and well-formedness.
pub open spec fn spec_las_asset(records: Seq<LasPointRecord>, a: PointCloudAsset) -> bool {
    &&& a.positions@.len() == records.len()
    &&& a.position_denom == spec_las_denom(records)
    &&& forall|i: int|
        0 <= i < records.len() ==> a.positions@[i] == spec_las_normalized(records, i)
    &&& a.colors matches Some(cs) && cs@.len() == records.len() && forall|i: int|
        0 <= i < records.len() ==> cs@[i] == spec_las_color(records[i])
    &&& a.animation is None
    &&& a.animation_scale == (ScaleBits { x: 0, y: 0, z: 0 })
    &&& a.wf()
}

/// Builds the asset from the decoded records: swaps the up axes, tracks
/// the running bounding box, normalizes every point into the unit cube —
/// the translated coordinate over the largest extent, as an exact
/// rational — and attaches a color to every point, direct RGB or the
/// intensity fallback. Fails only when the coordinate span of the file
/// exceeds the fixed-point range.
pub fn build_asset_from_records(records: &Vec<LasPointRecord>) -> (r: Result<
    PointCloudAsset,
    LasLoaderError,
>)
    ensures
        r is Err <==> spec_las_scale(records@) > i64::MAX,
        r matches Ok(a) ==> spec_las_asset(records@, a),
        r matches Err(e) ==> e is RangeTooLarge,
{
    let ghost rs = records@;
    let ghost ps = spec_las_positions(records@);
    let mut swapped: Vec<Position> = Vec::new();
    let mut colors: Vec<PointColor> = Vec::new();
    let mut i: usize = 0;
    while i < records.len()
        invariant
            i <= rs.len(),
            records@ == rs,
            ps == spec_las_positions(rs),
            swapped@.len() == i,
            colors@.len() == i,
            forall|j: int| 0 <= j < i ==> swapped@[j] == ps[j],
            forall|j: int| 0 <= j < i ==> colors@[j] == spec_las_color(rs[j]),
        decreases rs.len() - i,
    {
        let rec = records[i];
        proof {
            assert(ps[i as int] == spec_las_axes(rs[i as int]));
        }
        swapped.push(las_axis_convention(&rec));
        let color = match rec.color {
            Some(c) => PointColor {
                red: c.red,
                green: c.green,
                blue: c.blue,
                denom: COLOR_DENOM_RGB,
            },
            None => PointColor {
                red: rec.intensity,
                green: rec.intensity,
                blue: rec.intensity,
                denom: COLOR_DENOM_INTENSITY,
            },
        };
        colors.push(color);
        i = i + 1;
    }
    if swapped.len() == 0 {
        proof {
            assert(ps.len() == 0);
        }
        return Ok(PointCloudAsset {
            positions: Vec::new(),
            position_denom: 1,
            colors: Some(colors),
            animation: None,
            animation_scale: ScaleBits { x: 0, y: 0, z: 0 },
        });
    }
    let (mn, mx) = axis_bounds(&swapped);
    proof {
        assert(swapped@ =~= ps);
        assert(xs_of(ps)[0] == ps[0].x);
    }
    let ex: i128 = (mx.x as i128) - (mn.x as i128);
    let ey: i128 = (mx.y as i128) - (mn.y as i128);
    let ez: i128 = (mx.z as i128) - (mn.z as i128);
    let scale: i128 = if ex >= ey && ex >= ez {
        ex
    } else if ey >= ez {
        ey
    } else {
        ez
    };
    if scale > i64::MAX as i128 {
        return Err(LasLoaderError::RangeTooLarge);
    }
    let denom: u64 = if scale > 0 {
        scale as u64
    } else {
        1
    };
    let mut positions: Vec<Position> = Vec::new();
    let mut k: usize = 0;
    while k < swapped.len()
        invariant
            k <= swapped@.len(),
            swapped@ == ps,
            records@ == rs,
            ps == spec_las_positions(rs),
            positions@.len() == k,
            mn.x as int == seq_min(xs_of(ps)),
            mn.y as int == seq_min(ys_of(ps)),
            mn.z as int == seq_min(zs_of(ps)),
            mx.x as int == seq_max(xs_of(ps)),
            mx.y as int == seq_max(ys_of(ps)),
            mx.z as int == seq_max(zs_of(ps)),
            spec_las_scale(rs) <= i64::MAX,
            forall|j: int| 0 <= j < k ==> positions@[j] == spec_las_normalized(rs, j),
        decreases swapped@.len() - k,
    {
        proof {
            lemma_seq_min_max_bounds(xs_of(ps), k as int);
            lemma_seq_min_max_bounds(ys_of(ps), k as int);
            lemma_seq_min_max_bounds(zs_of(ps), k as int);
            assert(xs_of(ps)[k as int] == ps[k as int].x);
            assert(ys_of(ps)[k as int] == ps[k as int].y);
            assert(zs_of(ps)[k as int] == ps[k as int].z);
        }
        let p = swapped[k];
        let nx: i64 = ((p.x as i128) - (mn.x as i128)) as i64;
        let ny: i64 = ((p.y as i128) - (mn.y as i128)) as i64;
        let nz: i64 = ((p.z as i128) - (mn.z as i128)) as i64;
        positions.push(Position { x: nx, y: ny, z: nz });
        k = k + 1;
    }
    Ok(PointCloudAsset {
        positions,
        position_denom: denom,
        colors: Some(colors),
        animation: None,
        animation_scale: ScaleBits { x: 0, y: 0, z: 0 },
    })
}

/// The per-axis minima and maxima of a nonempty position set.
pub fn axis_bounds(ps: &Vec<Position>) -> (r: (Position, Position))
    requires
        ps@.len() > 0,
    ensures
        r.0.x as int == seq_min(xs_of(ps@)),
        r.0.y as int == seq_min(ys_of(ps@)),
        r.0.z as int == seq_min(zs_of(ps@)),
        r.1.x as int == seq_max(xs_of(ps@)),
        r.1.y as int == seq_max(ys_of(ps@)),
        r.1.z as int == seq_max(zs_of(ps@)),
{
    let mut mn = ps[0];
    let mut mx = ps[0];
    let mut i: usize = 1;
    proof {
        assert(xs_of(ps@.subrange(0, 1)) =~= seq![ps@[0].x as int]);
        assert(ys_of(ps@.subrange(0, 1)) =~= seq![ps@[0].y as int]);
        assert(zs_of(ps@.subrange(0, 1)) =~= seq![ps@[0].z as int]);
    }
    while i < ps.len()
        invariant
            1 <= i <= ps@.len(),
            mn.x as int == seq_min(xs_of(ps@.subrange(0, i as int))),
            mn.y as int == seq_min(ys_of(ps@.subrange(0, i as int))),
            mn.z as int == seq_min(zs_of(ps@.subrange(0, i as int))),
            mx.x as int == seq_max(xs_of(ps@.subrange(0, i as int))),
            mx.y as int == seq_max(ys_of(ps@.subrange(0, i as int))),
            mx.z as int == seq_max(zs_of(ps@.subrange(0, i as int))),
        decreases ps@.len() - i,
    {
        let p = ps[i];
        proof {
            let pre = ps@.subrange(0, i as int);
            let cur = ps@.subrange(0, i as int + 1);
            assert(xs_of(cur).drop_last() =~= xs_of(pre));
            assert(ys_of(cur).drop_last() =~= ys_of(pre));
            assert(zs_of(cur).drop_last() =~= zs_of(pre));
            assert(xs_of(cur).last() == ps@[i as int].x);
            assert(ys_of(cur).last() == ps@[i as int].y);
            assert(zs_of(cur).last() == ps@[i as int].z);
            assert(xs_of(cur).len() > 1);
        }
        if p.x < mn.x {
            mn = Position { x: p.x, ..mn };
        }
        if p.y < mn.y {
            mn = Position { y: p.y, ..mn };
        }
        if p.z < mn.z {
            mn = Position { z: p.z, ..mn };
        }
        if p.x > mx.x {
            mx = Position { x: p.x, ..mx };
        }
        if p.y > mx.y {
            mx = Position { y: p.y, ..mx };
        }
        if p.z > mx.z {
            mx = Position { z: p.z, ..mx };
        }
        i = i + 1;
    }
    proof {
        assert(ps@.subrange(0, ps@.len() as int) =~= ps@);
    }
    (mn, mx)
}

/// The loader for las byte streams.
#[derive(Clone, Copy, PartialEq, Eq, Structural, Debug)]
pub struct LasLoader;

impl LasLoader {
    /// The file extensions this loader claims.
    pub fn extensions(&self) -> (r: Vec<&'static str>)
        ensures
            r@.len() == 2,
            r@[0]@ == "las"@,
            r@[1]@ == "laz"@,
    {
        let mut r: Vec<&'static str> = Vec::new();
        r.push("las");
        r.push("laz");
        r
    }

    /// Decodes a las byte stream and builds the normalized colored asset.
    /// A header whose declared point-data size overflows 64-bit
    /// arithmetic is rejected up front; otherwise the load succeeds
    /// exactly when the las crate accepts the stream and the decoded
    /// coordinate span fits the fixed-point range, and the asset is then
    /// `spec_las_asset` of the decoded records — the exact contract of
    /// `build_asset_from_records`.
    pub fn load(&self, bytes: &[u8]) -> (r: Result<PointCloudAsset, LasLoaderError>)
        ensures
            r is Err <==> (spec_las_size_overflows(bytes@) || las_records_of(bytes@) is None
                || spec_las_scale(las_records_of(bytes@)->Some_0) > i64::MAX),
            r matches Ok(a) ==> las_records_of(bytes@) matches Some(recs) && spec_las_asset(
                recs,
                a,
            ),
            r matches Err(e) ==> {
                &&& (e is SizeOverflow) <==> spec_las_size_overflows(bytes@)
                &&& (e is Parse) <==> (!spec_las_size_overflows(bytes@) && las_records_of(
                    bytes@,
                ) is None)
            },
    {
        if las_size_overflows(bytes) {
            return Err(LasLoaderError::SizeOverflow);
        }
        match read_las_points(bytes) {
            Ok(records) => {
                proof {
                    assert(las_records_of(bytes@) == Some(records@));
                }
                match build_asset_from_records(&records) {
                    Ok(a) => Ok(a),
                    Err(e) => Err(e),
                }
            },
            Err(e) => Err(LasLoaderError::Parse(e)),
        }
    }
}

} // verus!
