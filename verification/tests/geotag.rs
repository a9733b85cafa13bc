use kasugai_box::geotag::{
    first_date, get_exif_location_and_datetime, gpkg_point_blob, gps_coordinate, ExifValue,
};

fn tiff_with(fields: &[exif::Field]) -> Vec<u8> {
    let mut w = exif::experimental::Writer::new();
    for f in fields {
        w.push_field(f);
    }
    let mut out = std::io::Cursor::new(Vec::new());
    w.write(&mut out, false).unwrap();
    out.into_inner()
}

fn field(tag: exif::Tag, value: exif::Value) -> exif::Field {
    exif::Field { tag, ifd_num: exif::In::PRIMARY, value }
}

fn rationals(v: &[(u32, u32)]) -> exif::Value {
    exif::Value::Rational(v.iter().map(|&(n, d)| exif::Rational { num: n, denom: d }).collect())
}

#[test]
fn coordinate_needs_three_rationals_and_a_reference() {
    let dms = Some(ExifValue::Rational(vec![(35, 1), (39, 1), (2999, 100)]));
    let north = Some(ExifValue::Ascii(vec![b"N".to_vec()]));
    let south = Some(ExifValue::Ascii(vec![b"S".to_vec()]));
    let d = gps_coordinate(&dms, &north).unwrap();
    assert_eq!((d.degrees, d.minutes, d.seconds, d.negative), ((35, 1), (39, 1), (2999, 100), false));
    assert!(gps_coordinate(&dms, &south).unwrap().negative);
    assert!(gps_coordinate(&dms, &Some(ExifValue::Ascii(vec![b"West".to_vec()]))).unwrap().negative);
    assert!(!gps_coordinate(&dms, &Some(ExifValue::Other)).unwrap().negative);
    assert!(!gps_coordinate(&dms, &Some(ExifValue::Ascii(vec![]))).unwrap().negative);
    assert!(gps_coordinate(&dms, &None).is_none());
    assert!(gps_coordinate(&Some(ExifValue::Rational(vec![(1, 1), (2, 1)])), &north).is_none());
    assert!(gps_coordinate(&Some(ExifValue::Other), &north).is_none());
}

#[test]
fn dates_prefer_the_original() {
    assert_eq!(first_date(Some("a".to_string()), Some("b".to_string())).as_deref(), Some("a"));
    assert_eq!(first_date(None, Some("b".to_string())).as_deref(), Some("b"));
    assert_eq!(first_date(None, None), None);
}

#[test]
fn bytes_without_exif_give_nothing() {
    let r = get_exif_location_and_datetime(b"not an image");
    assert!(r.latitude.is_none() && r.longitude.is_none() && r.date_taken.is_none());
}

#[test]
fn exif_of_a_tiff_is_read() {
    let fields = [
        field(exif::Tag::GPSLatitudeRef, exif::Value::Ascii(vec![b"S".to_vec()])),
        field(exif::Tag::GPSLatitude, rationals(&[(33, 1), (51, 1), (54, 1)])),
        field(exif::Tag::GPSLongitudeRef, exif::Value::Ascii(vec![b"E".to_vec()])),
        field(exif::Tag::GPSLongitude, rationals(&[(151, 1), (12, 1), (36, 1)])),
        field(exif::Tag::DateTime, exif::Value::Ascii(vec![b"2026:07:26 14:58:02".to_vec()])),
    ];
    let r = get_exif_location_and_datetime(&tiff_with(&fields));
    let lat = r.latitude.unwrap();
    assert_eq!((lat.degrees, lat.minutes, lat.seconds, lat.negative), ((33, 1), (51, 1), (54, 1), true));
    let lon = r.longitude.unwrap();
    assert!(!lon.negative);
    assert_eq!(lon.degrees, (151, 1));
    assert_eq!(r.date_taken.as_deref(), Some("2026-07-26 14:58:02"));
}

#[test]
fn geopackage_point_bytes() {
    let (lon, lat) = (139.741333_f64, 35.65833_f64);
    let blob = gpkg_point_blob(lon.to_bits(), lat.to_bits());
    let mut expected = Vec::new();
    expected.extend_from_slice(b"GP");
    expected.push(0);
    expected.push(1);
    expected.extend_from_slice(&4326i32.to_le_bytes());
    expected.push(1);
    expected.extend_from_slice(&1u32.to_le_bytes());
    expected.extend_from_slice(&lon.to_le_bytes());
    expected.extend_from_slice(&lat.to_le_bytes());
    assert_eq!(blob, expected);
    assert_eq!(blob.len(), 29);
}
