//! The location and date of a photo read from its own EXIF data (the desktop and command-line
//! flows download each image and read it with `kamadak-exif`), and the GeoPackage point that
//! the command-line flow stores for a located photo.
use vstd::prelude::*;

verus! {

/// The value of an EXIF field as far as the location logic reads it.
pub enum ExifValue {
    /// Unsigned rationals, each as (numerator, denominator).
    Rational(Vec<(u32, u32)>),
    /// ASCII strings, each without its trailing NUL.
    Ascii(Vec<Vec<u8>>),
    /// A value of any other type.
    Other,
}

/// The GPS fields that the location is made of.
pub enum GpsTag {
    Latitude,
    LatitudeRef,
    Longitude,
    LongitudeRef,
}

/// The value that `exif::Exif::get_field` gives for a GPS field of the primary image, in the
/// EXIF data that `exif::Reader::read_from_container` finds in the bytes of an image file,
/// as the location logic reads it; `None` where there is no such data or no such field.
pub uninterp spec fn gps_value_of(bytes: Seq<u8>, which: GpsTag) -> Option<ExifValue>;

/// The text that `exif::Field::display_value().with_unit(..)` shows for `DateTimeOriginal`
/// (`taken`) or `DateTime` of the primary image, in the EXIF data of the bytes of an image
/// file; `None` where there is no such data or no such field.
pub uninterp spec fn date_text_of(bytes: Seq<u8>, taken: bool) -> Option<Seq<char>>;

/// `exif::Reader::read_from_container` on the bytes of an image file, then
/// `exif::Exif::get_field` for a GPS tag of the primary image, its value converted: the
/// rationals as (numerator, denominator) pairs, the ASCII strings as bytes. The result is
/// named, not stated: what the file holds is not known here.
#[verifier::external_body]
fn gps_field(bytes: &[u8], which: GpsTag) -> (r: Option<ExifValue>)
    ensures
        r == gps_value_of(bytes@, which),
{
    let data = exif::Reader::new().read_from_container(&mut std::io::Cursor::new(bytes)).ok()?;
    let tag = match which {
        GpsTag::Latitude => exif::Tag::GPSLatitude,
        GpsTag::LatitudeRef => exif::Tag::GPSLatitudeRef,
        GpsTag::Longitude => exif::Tag::GPSLongitude,
        GpsTag::LongitudeRef => exif::Tag::GPSLongitudeRef,
    };
    match &data.get_field(tag, exif::In::PRIMARY)?.value {
        exif::Value::Rational(v) => Some(ExifValue::Rational(v.iter().map(|q| (q.num, q.denom)).collect())),
        exif::Value::Ascii(v) => Some(ExifValue::Ascii(v.clone())),
        _ => Some(ExifValue::Other),
    }
}

/// `exif::Reader::read_from_container` on the bytes of an image file, then
/// `exif::Exif::get_field` for `DateTimeOriginal` (or `DateTime`) of the primary image,
/// shown with `display_value().with_unit(..)`. The text is named, not stated.
#[verifier::external_body]
fn date_field(bytes: &[u8], taken: bool) -> (r: Option<String>)
    ensures
        opt_text(r) == date_text_of(bytes@, taken),
{
    let data = exif::Reader::new().read_from_container(&mut std::io::Cursor::new(bytes)).ok()?;
    let tag = if taken { exif::Tag::DateTimeOriginal } else { exif::Tag::DateTime };
    data.get_field(tag, exif::In::PRIMARY).map(|f| f.display_value().with_unit(&data).to_string())
}

/// A coordinate as EXIF stores it: degrees, minutes and seconds as rationals, and whether
/// the reference (`S` or `W`) makes it negative.
pub struct Dms {
    pub degrees: (u32, u32),
    pub minutes: (u32, u32),
    pub seconds: (u32, u32),
    pub negative: bool,
}

/// The reference field names the southern or western half: its first string starts with
/// `S` or `W`.
pub open spec fn negative_ref(reference: ExifValue) -> bool {
    match reference {
        ExifValue::Ascii(v) => v@.len() > 0 && v@[0]@.len() > 0 && (v@[0]@[0] == 83u8 || v@[0]@[0]
            == 87u8),
        _ => false,
    }
}

/// The coordinate of a GPS field and its reference: both must be present, and the field
/// must hold exactly three rationals.
pub open spec fn gps_coordinate_spec(value: Option<ExifValue>, reference: Option<ExifValue>) -> Option<
    (u32, u32, u32, u32, u32, u32, bool),
> {
    match (value, reference) {
        (Some(ExifValue::Rational(r)), Some(rf)) => if r@.len() == 3 {
            Some((r@[0].0, r@[0].1, r@[1].0, r@[1].1, r@[2].0, r@[2].1, negative_ref(rf)))
        } else {
            None
        },
        _ => None,
    }
}

pub open spec fn dms_view(d: Dms) -> (u32, u32, u32, u32, u32, u32, bool) {
    (d.degrees.0, d.degrees.1, d.minutes.0, d.minutes.1, d.seconds.0, d.seconds.1, d.negative)
}

pub open spec fn dms_opt_view(d: Option<Dms>) -> Option<(u32, u32, u32, u32, u32, u32, bool)> {
    match d {
        Some(d) => Some(dms_view(d)),
        None => None,
    }
}

pub open spec fn opt_text(t: Option<String>) -> Option<Seq<char>> {
    match t {
        Some(t) => Some(t@),
        None => None,
    }
}

/// The location and date that the EXIF data of an image file gives: each coordinate read
/// from its GPS field and reference, the date `DateTimeOriginal`, else `DateTime`; nothing
/// where the file holds no EXIF data.
pub open spec fn exif_location_spec(bytes: Seq<u8>) -> (
    Option<(u32, u32, u32, u32, u32, u32, bool)>,
    Option<(u32, u32, u32, u32, u32, u32, bool)>,
    Option<Seq<char>>,
) {
    (
        gps_coordinate_spec(
            gps_value_of(bytes, GpsTag::Latitude),
            gps_value_of(bytes, GpsTag::LatitudeRef),
        ),
        gps_coordinate_spec(
            gps_value_of(bytes, GpsTag::Longitude),
            gps_value_of(bytes, GpsTag::LongitudeRef),
        ),
        match date_text_of(bytes, true) {
            Some(t) => Some(t),
            None => date_text_of(bytes, false),
        },
    )
}

/// The coordinate of a GPS field and its reference field.
pub fn gps_coordinate(value: &Option<ExifValue>, reference: &Option<ExifValue>) -> (r: Option<Dms>)
    ensures
        match r {
            Some(d) => gps_coordinate_spec(*value, *reference) == Some(dms_view(d)),
            None => gps_coordinate_spec(*value, *reference) is None,
        },
{
    let rf = match reference {
        Some(rf) => rf,
        None => {
            return None;
        },
    };
    let r = match value {
        Some(ExifValue::Rational(r)) => r,
        _ => {
            return None;
        },
    };
    if r.len() != 3 {
        return None;
    }
    let negative = match rf {
        ExifValue::Ascii(v) => v.len() > 0 && v[0].len() > 0 && (v[0][0] == 83u8 || v[0][0] == 87u8),
        _ => false,
    };
    Some(Dms { degrees: r[0], minutes: r[1], seconds: r[2], negative })
}

/// What the EXIF data of a photo gives.
pub struct ExifReading {
    pub latitude: Option<Dms>,
    pub longitude: Option<Dms>,
    pub date_taken: Option<String>,
}

/// The date of a photo: `DateTimeOriginal`, else `DateTime`.
pub fn first_date(taken: Option<String>, fallback: Option<String>) -> (r: Option<String>)
    ensures
        r == (match taken {
            Some(d) => Some(d),
            None => fallback,
        }),
{
    match taken {
        Some(d) => Some(d),
        None => fallback,
    }
}

/// What the EXIF fields of a photo give: each coordinate as `gps_coordinate` reads it from
/// its field and reference, and the date `DateTimeOriginal`, else `DateTime`.
pub fn exif_reading(
    lat: &Option<ExifValue>,
    lat_ref: &Option<ExifValue>,
    lon: &Option<ExifValue>,
    lon_ref: &Option<ExifValue>,
    taken_date: Option<String>,
    date: Option<String>,
) -> (r: ExifReading)
    ensures
        match r.latitude {
            Some(d) => gps_coordinate_spec(*lat, *lat_ref) == Some(dms_view(d)),
            None => gps_coordinate_spec(*lat, *lat_ref) is None,
        },
        match r.longitude {
            Some(d) => gps_coordinate_spec(*lon, *lon_ref) == Some(dms_view(d)),
            None => gps_coordinate_spec(*lon, *lon_ref) is None,
        },
        r.date_taken == (match taken_date {
            Some(d) => Some(d),
            None => date,
        }),
{
    ExifReading {
        latitude: gps_coordinate(lat, lat_ref),
        longitude: gps_coordinate(lon, lon_ref),
        date_taken: first_date(taken_date, date),
    }
}

/// `get_exif_location_and_datetime`: the location and date in the EXIF data of an image
/// file, as `exif_reading` makes them of the fields `kamadak-exif` finds; nothing where the
/// file holds no EXIF data.
pub fn get_exif_location_and_datetime(bytes: &[u8]) -> (r: ExifReading)
    ensures
        (dms_opt_view(r.latitude), dms_opt_view(r.longitude), opt_text(r.date_taken))
            == exif_location_spec(bytes@),
{
    let lat = gps_field(bytes, GpsTag::Latitude);
    let lat_ref = gps_field(bytes, GpsTag::LatitudeRef);
    let lon = gps_field(bytes, GpsTag::Longitude);
    let lon_ref = gps_field(bytes, GpsTag::LongitudeRef);
    let taken = date_field(bytes, true);
    let fallback = match taken {
        Some(_) => None,
        None => date_field(bytes, false),
    };
    exif_reading(&lat, &lat_ref, &lon, &lon_ref, taken, fallback)
}

/// The eight bytes of `x`, least significant first.
pub open spec fn le_bytes(x: u64) -> Seq<u8> {
    Seq::new(8, |k: int| ((x >> (8 * k) as u64) & 0xff) as u8)
}

/// The GeoPackage geometry of a point in WGS 84 (`srs_id` 4326): the header `GP`, version 0,
/// flags 1 (little-endian, no envelope), the srs id, then the WKB point (little-endian, type
/// 1) with the longitude and the latitude, given by their IEEE 754 bits.
pub open spec fn gpkg_point_spec(lon_bits: u64, lat_bits: u64) -> Seq<u8> {
    seq![71u8, 80u8, 0u8, 1u8, 0xe6u8, 0x10u8, 0u8, 0u8, 1u8, 1u8, 0u8, 0u8, 0u8] + le_bytes(
        lon_bits,
    ) + le_bytes(lat_bits)
}

fn push_le_bytes(v: &mut Vec<u8>, x: u64)
    ensures
        final(v)@ == old(v)@ + le_bytes(x),
{
    let ghost v0 = v@;
    let mut k: u64 = 0;
    while k < 8
        invariant
            k <= 8,
            v@ == v0 + le_bytes(x).take(k as int),
        decreases 8 - k,
    {
        v.push(((x >> (8 * k)) & 0xff) as u8);
        k = k + 1;
        assert(v@ =~= v0 + le_bytes(x).take(k as int));
    }
    assert(le_bytes(x).take(8) =~= le_bytes(x));
}

/// `create_gpkg`: the geometry blob of a photo's point.
pub fn gpkg_point_blob(lon_bits: u64, lat_bits: u64) -> (r: Vec<u8>)
    ensures
        r@ == gpkg_point_spec(lon_bits, lat_bits),
        r@.len() == 29,
{
    let mut v: Vec<u8> = Vec::new();
    v.push(71u8);
    v.push(80u8);
    v.push(0u8);
    v.push(1u8);
    v.push(0xe6u8);
    v.push(0x10u8);
    v.push(0u8);
    v.push(0u8);
    v.push(1u8);
    v.push(1u8);
    v.push(0u8);
    v.push(0u8);
    v.push(0u8);
    push_le_bytes(&mut v, lon_bits);
    push_le_bytes(&mut v, lat_bits);
    assert(v@ =~= gpkg_point_spec(lon_bits, lat_bits));
    v
}

} // verus!
