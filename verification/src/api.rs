//! The values that the HTTP surface reads from requests and writes into
//! answers.
//!
//! A cutout is addressed by three extents, one per axis, each written
//! `<start>:<stop>` with the stop exclusive. The routes themselves, and the
//! encoding of voxels for the wire, are the caller's.
use vstd::prelude::*;
use vstd::string::StrSliceExecFns;
use vstd::string::StringExecFns;
use crate::cuboids::Vector3;
use crate::data_manager::DataError;
use crate::text::chars_of;
use crate::text::find;
use crate::text::first_occurrence;
use crate::text::lemma_first_occurrence;
use crate::text::parse_unsigned;
use crate::text::unsigned_value;
use crate::volume::Volume;

verus! {

/// What separates the numbers of an extent.
pub open spec fn colon() -> Seq<char> {
    seq![':']
}

/// The numbers that the part of `s` from `from` on writes, separated by
/// `sep`; `None` if a piece between separators is no unsigned number.
pub open spec fn numbers_from(s: Seq<char>, sep: Seq<char>, from: int) -> Option<Seq<u64>>
    decreases s.len() - from,
{
    match first_occurrence(s, sep, from) {
        None => if 0 <= from <= s.len() {
            match unsigned_value(s.subrange(from, s.len() as int)) {
                Some(v) => Some(seq![v]),
                None => None,
            }
        } else {
            None
        },
        Some(i) => if sep.len() > 0 && from <= i && i + sep.len() <= s.len() {
            match (unsigned_value(s.subrange(from, i)), numbers_from(s, sep, i + sep.len())) {
                (Some(v), Some(rest)) => Some(seq![v] + rest),
                _ => None,
            }
        } else {
            None
        },
    }
}

/// The numbers of a colon-delimited text such as `0:512`.
pub open spec fn extents_of(s: Seq<char>) -> Option<Seq<u64>> {
    numbers_from(s, colon(), 0)
}

/// Reads the colon-delimited numbers of an extent, such as `0:512`. A piece
/// that is no unsigned number makes the extent malformed.
pub fn colon_delim_str_to_extents(string_value: &str) -> (r: Result<Vec<u64>, DataError>)
    ensures
        match r {
            Ok(values) => extents_of(string_value@) == Some(values@),
            Err(e) => e == DataError::InputMalformed && extents_of(string_value@).is_none(),
        },
{
    proof {
        reveal_strlit(":");
    }
    assert(":"@ =~= colon());
    let chars = chars_of(string_value);
    let pat = chars_of(":");
    let total = chars.len();
    let mut values: Vec<u64> = Vec::new();
    let mut from: usize = 0;
    loop
        invariant
            chars@ == string_value@,
            pat@ == colon(),
            total == chars@.len(),
            from <= total,
            extents_of(string_value@) == match numbers_from(string_value@, colon(), from as int) {
                Some(rest) => Some(values@ + rest),
                None => None,
            },
        decreases total - from,
    {
        let found = find(&chars, &pat, from);
        proof {
            lemma_first_occurrence(string_value@, colon(), from as int);
        }
        let end: usize = match found {
            Some(i) => i,
            None => total,
        };
        let part = string_value.substring_char(from, end);
        let value = match parse_unsigned(part) {
            None => {
                return Err(DataError::InputMalformed);
            },
            Some(value) => value,
        };
        match found {
            None => {
                let ghost before = values@;
                values.push(value);
                assert(values@ =~= before + seq![value]);
                return Ok(values);
            },
            Some(i) => {
                let ghost before = values@;
                values.push(value);
                proof {
                    let rest = numbers_from(string_value@, colon(), i + 1);
                    if rest is Some {
                        assert(values@ + rest.unwrap() =~= before + (seq![value] + rest.unwrap()));
                    }
                }
                from = i + 1;
            },
        }
    }
}

/// Start and stop of the cutout that three extents address; the cutout is
/// malformed when an extent is, or has fewer than two numbers.
pub open spec fn bounds_of(xs: Seq<char>, ys: Seq<char>, zs: Seq<char>) -> Option<
    (Vector3, Vector3),
> {
    match (extents_of(xs), extents_of(ys), extents_of(zs)) {
        (Some(x), Some(y), Some(z)) => if x.len() >= 2 && y.len() >= 2 && z.len() >= 2 {
            Some(
                (
                    Vector3 { x: x[0], y: y[0], z: z[0] },
                    Vector3 { x: x[1], y: y[1], z: z[1] },
                ),
            )
        } else {
            None
        },
        _ => None,
    }
}

/// Reads origin and destination of a cutout from its three extents.
pub fn cutout_bounds(xs: &str, ys: &str, zs: &str) -> (r: Result<(Vector3, Vector3), DataError>)
    ensures
        match r {
            Ok(bounds) => bounds_of(xs@, ys@, zs@) == Some(bounds),
            Err(e) => e == DataError::InputMalformed && bounds_of(xs@, ys@, zs@).is_none(),
        },
{
    let x = match colon_delim_str_to_extents(xs) {
        Ok(x) => x,
        Err(e) => {
            return Err(e);
        },
    };
    let y = match colon_delim_str_to_extents(ys) {
        Ok(y) => y,
        Err(e) => {
            return Err(e);
        },
    };
    let z = match colon_delim_str_to_extents(zs) {
        Ok(z) => z,
        Err(e) => {
            return Err(e);
        },
    };
    if x.len() < 2 || y.len() < 2 || z.len() < 2 {
        return Err(DataError::InputMalformed);
    }
    Ok((Vector3 { x: x[0], y: y[0], z: z[0] }, Vector3 { x: x[1], y: y[1], z: z[1] }))
}

/// The axis lengths `(nz, ny, nx)` of the buffer that an upload to
/// `[origin, destination)` carries; malformed when the destination lies
/// before the origin on some axis or an extent is beyond what the machine
/// can index.
pub fn upload_shape(origin: Vector3, destination: Vector3) -> (r: Result<
    (usize, usize, usize),
    DataError,
>)
    ensures
        match r {
            Ok(shape) => {
                &&& shape.0 == destination.z - origin.z
                &&& shape.1 == destination.y - origin.y
                &&& shape.2 == destination.x - origin.x
            },
            Err(e) => e == DataError::InputMalformed && !(0 <= destination.z - origin.z
                <= usize::MAX && 0 <= destination.y - origin.y <= usize::MAX && 0 <= destination.x
                - origin.x <= usize::MAX),
        },
{
    if destination.x < origin.x || destination.y < origin.y || destination.z < origin.z {
        return Err(DataError::InputMalformed);
    }
    let limit: u64 = usize::MAX as u64;
    let nx: u64 = destination.x - origin.x;
    let ny: u64 = destination.y - origin.y;
    let nz: u64 = destination.z - origin.z;
    if nx > limit || ny > limit || nz > limit {
        return Err(DataError::InputMalformed);
    }
    Ok((nz as usize, ny as usize, nx as usize))
}

/// Width and height of the filmstrip of a volume: its Z slices stacked
/// along Y. `None` when the strip is beyond what an image can measure.
pub fn filmstrip_size(nz: usize, ny: usize, nx: usize) -> (r: Option<(u32, u32)>)
    ensures
        match r {
            Some((width, height)) => width == nx && height == ny * nz,
            None => nx > u32::MAX || ny * nz > u32::MAX,
        },
{
    let limit: usize = u32::MAX as usize;
    if nx > limit {
        return None;
    }
    match ny.checked_mul(nz) {
        None => None,
        Some(height) => if height > limit {
            None
        } else {
            Some((nx as u32, height as u32))
        },
    }
}

/// The JPEG encoding of an 8-bit grayscale image of the given width and
/// height whose pixels, row by row, are `pixels`; `None` where the encoder
/// refuses the image.
pub uninterp spec fn luma_jpeg(width: u32, height: u32, pixels: Seq<u8>) -> Option<Seq<u8>>;

/// `image::DynamicImage::write_to` with `image::ImageFormat::Jpeg`, on the
/// grayscale image that `image::GrayImage::from_raw` makes of the pixels:
/// the bytes of the encoded image, which depend on width, height and pixels
/// alone. Encoding fails for an image that the format cannot hold.
#[verifier::external_body]
fn encode_luma_jpeg(width: u32, height: u32, pixels: Vec<u8>) -> (r: Option<Vec<u8>>)
    requires
        pixels@.len() == width * height,
    ensures
        match r {
            Some(bytes) => luma_jpeg(width, height, pixels@) == Some(bytes@),
            None => luma_jpeg(width, height, pixels@).is_none(),
        },
{
    let image = image::GrayImage::from_raw(width, height, pixels)?;
    let mut out = std::io::Cursor::new(Vec::new());
    match image::DynamicImage::ImageLuma8(image).write_to(&mut out, image::ImageFormat::Jpeg) {
        Ok(()) => Some(out.into_inner()),
        Err(_) => None,
    }
}

/// The filmstrip of a volume as a JPEG image: its Z slices, one below the
/// other. `None` when the strip is beyond what an image can measure or the
/// encoder refuses it.
pub fn jpeg_filmstrip(volume: &Volume) -> (r: Option<Vec<u8>>)
    ensures
        match r {
            Some(bytes) => {
                &&& volume.nx() <= u32::MAX
                &&& volume.ny() * volume.nz() <= u32::MAX
                &&& luma_jpeg(
                    volume.nx() as u32,
                    (volume.ny() * volume.nz()) as u32,
                    volume.voxels(),
                ) == Some(bytes@)
            },
            None => volume.nx() > u32::MAX || volume.ny() * volume.nz() > u32::MAX || luma_jpeg(
                volume.nx() as u32,
                (volume.ny() * volume.nz()) as u32,
                volume.voxels(),
            ).is_none(),
        },
{
    let shape = volume.dim();
    match filmstrip_size(shape.0, shape.1, shape.2) {
        None => None,
        Some((width, height)) => {
            let pixels = volume.to_vec();
            assert(pixels@.len() == width * height) by (nonlinear_arith)
                requires
                    pixels@.len() == shape.0 * shape.1 * shape.2,
                    width == shape.2,
                    height == shape.1 * shape.0,
            ;
            encode_luma_jpeg(width, height, pixels)
        },
    }
}

/// What the service says of itself.
pub fn index() -> (r: String)
    ensures
        r@ == "Bossphorus v0.0.1"@,
{
    String::from_str("Bossphorus v0.0.1")
}

/// What the service tells of a channel.
pub struct ChannelMetadata {
    pub name: String,
    pub description: String,
    pub experiment: String,
    pub collection: String,
    pub default_time_sample: u64,
    pub _type: String,
    pub base_resolution: u64,
    pub datatype: String,
    pub creator: String,
    pub sources: Vec<String>,
    pub downsample_status: String,
    pub related: Vec<String>,
}

/// The metadata of the channel `channel` of `experiment` in `collection`: an
/// image channel of 8-bit voxels, downsampled, without sources or relations.
pub fn get_channel_metadata(collection: &str, experiment: &str, channel: &str) -> (r:
    ChannelMetadata)
    ensures
        r.name@ == channel@,
        r.description@ == ""@,
        r.experiment@ == experiment@,
        r.collection@ == collection@,
        r.default_time_sample == 0,
        r._type@ == "image"@,
        r.base_resolution == 0,
        r.datatype@ == "uint8"@,
        r.creator@ == "bossphorus_cache"@,
        r.sources@.len() == 0,
        r.downsample_status@ == "DOWNSAMPLED"@,
        r.related@.len() == 0,
{
    ChannelMetadata {
        name: String::from_str(channel),
        description: String::from_str(""),
        experiment: String::from_str(experiment),
        collection: String::from_str(collection),
        default_time_sample: 0,
        _type: String::from_str("image"),
        base_resolution: 0,
        datatype: String::from_str("uint8"),
        creator: String::from_str("bossphorus_cache"),
        sources: Vec::new(),
        downsample_status: String::from_str("DOWNSAMPLED"),
        related: Vec::new(),
    }
}

} // verus!
