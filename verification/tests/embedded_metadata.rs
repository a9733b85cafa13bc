use kasugai_box::coordinate::{parse_coordinate, Coordinate, Magnitude};
use kasugai_box::json::{Json, JsonNumber};
use kasugai_box::metadata::{extract_embedded_location_and_datetime, select_location};

fn text(s: &str) -> Json {
    Json::Str(s.to_string())
}

fn object(members: Vec<(&str, Json)>) -> Json {
    Json::Object(members.into_iter().map(|(k, v)| (k.to_string(), v)).collect())
}

fn degrees(c: &Coordinate) -> f64 {
    let m = match &c.magnitude {
        Magnitude::Number(JsonNumber::PosInt(n)) => *n as f64,
        Magnitude::Number(JsonNumber::NegInt(n)) => *n as f64,
        Magnitude::Number(JsonNumber::Float(t)) => t.parse::<f64>().unwrap(),
        Magnitude::Sexagesimal(parts) => {
            let n: Vec<f64> = parts.iter().map(|t| t.parse::<f64>().unwrap()).collect();
            match n.len() {
                1 => n[0],
                2 => n[0].abs() + n[1] / 60.0,
                _ => n[0].abs() + n[1] / 60.0 + n[2] / 3600.0,
            }
        }
    };
    match c.hemisphere {
        Some(true) => m.abs(),
        Some(false) => -m.abs(),
        None => m,
    }
}

fn location(meta: &Json) -> (Option<f64>, Option<f64>, Option<String>) {
    let found = extract_embedded_location_and_datetime(meta);
    let at_origin: Vec<bool> = found
        .candidates
        .iter()
        .map(|c| degrees(&c.latitude) == 0.0 && degrees(&c.longitude) == 0.0)
        .collect();
    match select_location(&found.candidates, &at_origin) {
        Some(i) => (
            Some(degrees(&found.candidates[i].latitude)),
            Some(degrees(&found.candidates[i].longitude)),
            found.date_taken,
        ),
        None => (None, None, found.date_taken),
    }
}

fn approx(a: Option<f64>, b: f64) {
    let a = a.expect("no value");
    assert!((a - b).abs() < 1e-6, "{} != {}", a, b);
}

#[test]
fn parses_exiftool_dms_without_hemisphere() {
    let (c, has_hemi) = parse_coordinate(&text("35 deg 39' 29.99\"")).unwrap();
    assert!(!has_hemi);
    assert!((degrees(&c) - 35.658330).abs() < 1e-5);
}

#[test]
fn parses_dms_with_hemisphere() {
    let (c, has_hemi) = parse_coordinate(&text("139 deg 44' 28.80\" W")).unwrap();
    assert!(has_hemi);
    assert!((degrees(&c) + 139.741333).abs() < 1e-5);
}

#[test]
fn parses_decimal_and_numeric_values() {
    let number = Json::Number(JsonNumber::Float("35.6583".to_string()));
    assert!(!parse_coordinate(&number).unwrap().1);
    approx(Some(degrees(&parse_coordinate(&number).unwrap().0)), 35.6583);
    approx(Some(degrees(&parse_coordinate(&text("-35.6583")).unwrap().0)), -35.6583);
    approx(Some(degrees(&parse_coordinate(&text("35.6583 S")).unwrap().0)), -35.6583);
}

#[test]
fn parses_xmp_degrees_minutes() {
    let (c, has_hemi) = parse_coordinate(&text("35,39.4999N")).unwrap();
    assert!(has_hemi);
    assert!((degrees(&c) - 35.658331).abs() < 1e-4);
}

#[test]
fn rejects_exiftool_placeholders() {
    for raw in ["", "   ", "undef", "Unknown ()", "(Binary data 1024 bytes)"] {
        assert!(parse_coordinate(&text(raw)).is_none(), "{} was not rejected", raw);
    }
}

#[test]
fn extracts_location_from_box_exif_group() {
    let meta = Json::Array(vec![object(vec![
        ("BoxNormalized", object(vec![("PageCount", Json::Null)])),
        (
            "EXIF",
            object(vec![
                ("DateTimeOriginal", text("2026:07:26 14:58:02")),
                ("GPSLatitude", text("35 deg 39' 29.99\"")),
                ("GPSLatitudeRef", text("North")),
                ("GPSLongitude", text("139 deg 44' 28.80\"")),
                ("GPSLongitudeRef", text("East")),
                ("GPSAltitude", text("12.5 m")),
            ]),
        ),
        ("File", object(vec![("FileType", text("JPEG"))])),
    ])]);
    let (lat, lon, date) = location(&meta);
    approx(lat, 35.658330);
    approx(lon, 139.741333);
    assert_eq!(date.as_deref(), Some("2026:07:26 14:58:02"));
}

#[test]
fn applies_southern_and_western_refs() {
    let meta = Json::Array(vec![object(vec![(
        "EXIF",
        object(vec![
            ("GPSLatitude", text("33 deg 51' 54.00\"")),
            ("GPSLatitudeRef", text("South")),
            ("GPSLongitude", text("151 deg 12' 36.00\"")),
            ("GPSLongitudeRef", text("West")),
        ]),
    )])]);
    let (lat, lon, _) = location(&meta);
    approx(lat, -33.865);
    approx(lon, -151.21);
}

#[test]
fn treats_empty_gps_tags_as_missing() {
    let meta = Json::Array(vec![object(vec![(
        "EXIF",
        object(vec![
            ("DateTimeOriginal", text("2026:07:26 14:58:02")),
            ("GPSAltitude", text("undef")),
            ("GPSLatitude", text("")),
            ("GPSLatitudeRef", text("Unknown ()")),
            ("GPSLongitude", text("")),
            ("GPSLongitudeRef", text("Unknown ()")),
        ]),
    )])]);
    let (lat, lon, date) = location(&meta);
    assert!(lat.is_none() && lon.is_none());
    assert_eq!(date.as_deref(), Some("2026:07:26 14:58:02"));
}

#[test]
fn supports_composite_gps_position() {
    let meta = Json::Array(vec![object(vec![(
        "Composite",
        object(vec![("GPSPosition", text("35 deg 39' 29.99\" N, 139 deg 44' 28.80\" E"))]),
    )])]);
    let (lat, lon, _) = location(&meta);
    approx(lat, 35.658330);
    approx(lon, 139.741333);
}

#[test]
fn ignores_zero_zero_coordinates() {
    let meta = Json::Array(vec![object(vec![(
        "EXIF",
        object(vec![
            ("GPSLatitude", text("0 deg 0' 0.00\"")),
            ("GPSLongitude", text("0 deg 0' 0.00\"")),
        ]),
    )])]);
    let (lat, lon, _) = location(&meta);
    assert!(lat.is_none() && lon.is_none());
}

#[test]
fn ignores_zero_zero_position() {
    let meta = Json::Array(vec![object(vec![(
        "Composite",
        object(vec![("GPSPosition", text("0 deg 0' 0.00\" N, 0 deg 0' 0.00\" E"))]),
    )])]);
    let (lat, lon, _) = location(&meta);
    assert!(lat.is_none() && lon.is_none());
}

#[test]
fn zero_zero_position_gives_way_to_a_later_location() {
    let meta = Json::Array(vec![object(vec![(
        "Composite",
        object(vec![
            ("GPSPosition", text("0 deg 0' 0.00\" N, 0 deg 0' 0.00\" E")),
            ("GPSLatitude", text("35.5")),
            ("GPSLatitudeRef", text("North")),
            ("GPSLongitude", text("139.25")),
            ("GPSLongitudeRef", text("East")),
        ]),
    )])]);
    let (lat, lon, _) = location(&meta);
    approx(lat, 35.5);
    approx(lon, 139.25);
}

#[test]
fn numbers_that_do_not_parse_are_dropped() {
    assert!(parse_coordinate(&text("\u{663}\u{665}")).is_none());
    let (c, _) = parse_coordinate(&text("\u{663}\u{665} 12.5")).unwrap();
    approx(Some(degrees(&c)), 12.5);
}

#[test]
fn hemisphere_words_fold_case_as_the_regex_does() {
    // U+017F LONG S folds to `s`, so "ſouth" is matched as the hemisphere word (before the
    // trailing `N` is looked at); its first letter is not an ASCII S, so it gives no sign.
    let (c, has_hemi) = parse_coordinate(&text("35.5 \u{17f}outh N")).unwrap();
    assert!(!has_hemi);
    approx(Some(degrees(&c)), 35.5);
    let (_, has_hemi) = parse_coordinate(&text("35.5 fourth N")).unwrap();
    assert!(has_hemi);
    let (c, has_hemi) = parse_coordinate(&text("35.5 SOUTH")).unwrap();
    assert!(has_hemi);
    approx(Some(degrees(&c)), -35.5);
    // U+00D8 does not fold to any ASCII letter: no hemisphere word here.
    let (_, has_hemi) = parse_coordinate(&text("35.5 \u{d8}")).unwrap();
    assert!(!has_hemi);
}
