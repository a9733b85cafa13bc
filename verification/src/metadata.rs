//! Location and date taken of a photo, read from the `embedded_metadata`
//! representation (ExifTool JSON) that Box serves for a file.
use vstd::prelude::*;
use vstd::string::*;
use crate::coordinate::{self, parse_coordinate, parse_coordinate_chars, hemisphere_sign, is_placeholder, Coordinate, CoordinateModel};
use crate::json::{self, Json};
use crate::text::{self, to_chars};

verus! {

/// `coordinate_from_group`: the coordinate under `key` in a metadata group, with the
/// hemisphere of `ref_key` applied when the value does not name its own.
pub open spec fn coordinate_from_group_spec(
    group: Seq<(String, Json)>,
    key: Seq<char>,
    ref_key: Seq<char>,
) -> Option<CoordinateModel> {
    match json::member(group, key) {
        None => None,
        Some(v) => match coordinate::parse_coordinate_spec(v) {
            None => None,
            Some((c, named)) => if named {
                Some(c)
            } else {
                let sign = match json::member(group, ref_key) {
                    Some(Json::Str(s)) => coordinate::hemisphere_sign_spec(s@),
                    _ => None,
                };
                match sign {
                    Some(positive) => Some(
                        CoordinateModel { magnitude: c.magnitude, hemisphere: Some(positive) },
                    ),
                    None => Some(c),
                }
            },
        },
    }
}

fn member_of<'a>(group: &'a Vec<(String, Json)>, key: &String) -> (r: Option<&'a Json>)
    ensures
        r matches Some(v) ==> json::member(group@, key@) == Some(*v),
        r is None ==> json::member(group@, key@) is None,
{
    let mut i: usize = 0;
    assert(group@.skip(0) =~= group@);
    while i < group.len()
        invariant
            i <= group@.len(),
            json::member(group@, key@) == json::member(group@.skip(i as int), key@),
        decreases group.len() - i,
    {
        assert(group@.skip(i as int)[0] == group@[i as int]);
        if group[i].0 == *key {
            return Some(&group[i].1);
        }
        assert(group@.skip(i as int).skip(1) =~= group@.skip(i + 1));
        i = i + 1;
    }
    None
}

pub fn coordinate_from_group(group: &Vec<(String, Json)>, key: &String, ref_key: &String) -> (r:
    Option<Coordinate>)
    ensures
        match r {
            Some(c) => coordinate_from_group_spec(group@, key@, ref_key@) == Some(c@),
            None => coordinate_from_group_spec(group@, key@, ref_key@) is None,
        },
{
    let v = match member_of(group, key) {
        Some(v) => v,
        None => return None,
    };
    let (c, named) = match parse_coordinate(v) {
        Some(p) => p,
        None => return None,
    };
    if named {
        return Some(c);
    }
    let sign = match member_of(group, ref_key) {
        Some(Json::Str(s)) => hemisphere_sign(s.as_str()),
        _ => None,
    };
    match sign {
        Some(positive) => Some(Coordinate { magnitude: c.magnitude, hemisphere: Some(positive) }),
        None => Some(c),
    }
}


/// The preferred ExifTool groups, searched first and in this order.
pub open spec fn preferred_group_names() -> Seq<Seq<char>> {
    seq!["Composite"@, "EXIF"@, "XMP"@, "GPS"@]
}

/// The preferred groups present in the object `m`, in the order of `names`.
pub open spec fn preferred_groups(m: Seq<(String, Json)>, names: Seq<Seq<char>>) -> Seq<
    Seq<(String, Json)>,
>
    decreases names.len(),
{
    if names.len() == 0 {
        seq![]
    } else {
        let here = match json::member(m, names[0]) {
            Some(Json::Object(g)) => seq![g@],
            _ => seq![],
        };
        here + preferred_groups(m, names.skip(1))
    }
}

/// The groups of `m` that are not preferred ones, in the order of `m`.
pub open spec fn other_groups(m: Seq<(String, Json)>) -> Seq<Seq<(String, Json)>>
    decreases m.len(),
{
    if m.len() == 0 {
        seq![]
    } else {
        let here = match m[0].1 {
            Json::Object(g) => if preferred_group_names().contains(m[0].0@) {
                seq![]
            } else {
                seq![g@]
            },
            _ => seq![],
        };
        here + other_groups(m.skip(1))
    }
}

/// `metadata_groups`: the members of the top-level object, then its preferred groups,
/// then every other group; nothing when the value is not an object.
pub open spec fn metadata_groups_spec(root: Json) -> Seq<Seq<(String, Json)>> {
    match root {
        Json::Object(m) => seq![m@] + preferred_groups(m@, preferred_group_names()) + other_groups(
            m@,
        ),
        _ => seq![],
    }
}

/// The views of a list of borrowed groups.
pub open spec fn group_views(v: Seq<&Vec<(String, Json)>>) -> Seq<Seq<(String, Json)>> {
    v.map_values(|g: &Vec<(String, Json)>| g@)
}

fn preferred_names_exec() -> (r: Vec<String>)
    ensures
        r@.map_values(|t: String| t@) == preferred_group_names(),
{
    let mut v: Vec<String> = Vec::new();
    v.push(String::from_str("Composite"));
    v.push(String::from_str("EXIF"));
    v.push(String::from_str("XMP"));
    v.push(String::from_str("GPS"));
    assert(v@.map_values(|t: String| t@) =~= preferred_group_names());
    v
}

fn is_preferred(names: &Vec<String>, name: &String) -> (r: bool)
    requires
        names@.map_values(|t: String| t@) == preferred_group_names(),
    ensures
        r == preferred_group_names().contains(name@),
{
    let mut i: usize = 0;
    while i < names.len()
        invariant
            i <= names@.len(),
            names@.map_values(|t: String| t@) == preferred_group_names(),
            forall|j: int| 0 <= j < i ==> preferred_group_names()[j] != name@,
        decreases names.len() - i,
    {
        if names[i] == *name {
            assert(preferred_group_names()[i as int] == name@);
            return true;
        }
        i = i + 1;
    }
    false
}

pub fn metadata_groups(root: &Json) -> (r: Vec<&Vec<(String, Json)>>)
    ensures
        group_views(r@) == metadata_groups_spec(*root),
{
    let mut groups: Vec<&Vec<(String, Json)>> = Vec::new();
    let m = match root {
        Json::Object(m) => m,
        _ => {
            assert(group_views(groups@) =~= seq![]);
            return groups;
        },
    };
    groups.push(m);
    let names = preferred_names_exec();
    let ghost all = preferred_group_names();
    let mut i: usize = 0;
    assert(all.skip(0) =~= all);
    assert(group_views(groups@) =~= seq![m@]);
    while i < names.len()
        invariant
            i <= names@.len(),
            names@.map_values(|t: String| t@) == all,
            all == preferred_group_names(),
            group_views(groups@) + preferred_groups(m@, all.skip(i as int)) == seq![m@]
                + preferred_groups(m@, all),
        decreases names.len() - i,
    {
        let ghost before = groups@;
        assert(all.skip(i as int)[0] == names@[i as int]@);
        assert(all.skip(i as int).skip(1) =~= all.skip(i + 1));
        match member_of(m, &names[i]) {
            Some(Json::Object(g)) => {
                groups.push(g);
                assert(group_views(groups@) =~= group_views(before).push(g@));
            },
            _ => {},
        }
        assert(group_views(groups@) + preferred_groups(m@, all.skip(i + 1)) =~= seq![m@]
            + preferred_groups(m@, all));
        i = i + 1;
    }
    assert(all.skip(names@.len() as int) =~= seq![]);
    let ghost head = group_views(groups@);
    let mut k: usize = 0;
    assert(m@.skip(0) =~= m@);
    while k < m.len()
        invariant
            k <= m@.len(),
            names@.map_values(|t: String| t@) == preferred_group_names(),
            group_views(groups@) + other_groups(m@.skip(k as int)) == head + other_groups(m@),
        decreases m.len() - k,
    {
        let ghost before = groups@;
        assert(m@.skip(k as int)[0] == m@[k as int]);
        assert(m@.skip(k as int).skip(1) =~= m@.skip(k + 1));
        match &m[k].1 {
            Json::Object(g) => {
                if !is_preferred(&names, &m[k].0) {
                    groups.push(g);
                    assert(group_views(groups@) =~= group_views(before).push(g@));
                }
            },
            _ => {},
        }
        assert(group_views(groups@) + other_groups(m@.skip(k + 1)) =~= head + other_groups(m@));
        k = k + 1;
    }
    assert(m@.skip(m@.len() as int) =~= seq![]);
    assert(group_views(groups@) =~= metadata_groups_spec(*root));
    groups
}


/// The top-level object is searched first: it is the first group, so a date written at the
/// top level is the one found for its key, the first date key that the top level fills is the
/// date taken, and the locations that the top level offers come before all others.
pub proof fn law_top_level_is_searched_first(m: Vec<(String, Json)>)
    ensures
        ({
            let groups = metadata_groups_spec(Json::Object(m));
            &&& groups.len() >= 1 && groups[0] == m@
            &&& forall|key: Seq<char>|
                #![trigger json::member(m@, key)]
                json::member(m@, key) matches Some(Json::Str(d)) ==> (!coordinate::is_placeholder_spec(
                    d@,
                ) ==> date_in_groups(groups, key) == Some(d@))
            &&& candidates_of(groups).take(
                (opt_seq(position_candidate(m@)) + opt_seq(pair_candidate(m@))).len() as int,
            ) == opt_seq(position_candidate(m@)) + opt_seq(pair_candidate(m@))
        }),
{
    let groups = metadata_groups_spec(Json::Object(m));
    assert(groups[0] == m@);
    let first = opt_seq(position_candidate(m@)) + opt_seq(pair_candidate(m@));
    assert(candidates_of(groups) == first + candidates_of(groups.skip(1)));
    assert(candidates_of(groups).take(first.len() as int) =~= first);
}

proof fn lemma_trim_end_keeps_first(t: Seq<char>)
    requires
        t.len() > 0,
        !text::is_ws(t[0]),
    ensures
        text::trim_end(t).len() > 0,
        text::trim_end(t)[0] == t[0],
    decreases t.len(),
{
    if t.len() > 1 && text::is_ws(t.last()) {
        assert(t.drop_last()[0] == t[0]);
        lemma_trim_end_keeps_first(t.drop_last());
    }
}

/// A reference field such as `GPSLatitudeRef` gives the hemisphere of a coordinate that
/// does not name its own: a reference whose first character is `S` or `W` (in either case)
/// makes it south or west, one whose first character is `N` or `E` north or east. A
/// coordinate that names its hemisphere keeps it, whatever the reference says.
pub proof fn law_reference_gives_the_hemisphere(
    group: Seq<(String, Json)>,
    key: Seq<char>,
    ref_key: Seq<char>,
    reference: String,
)
    requires
        json::member(group, ref_key) == Some(Json::Str(reference)),
        reference@.len() > 0,
        coordinate::hemisphere_initial(reference@[0]),
    ensures
        json::member(group, key) matches Some(v) ==> (coordinate::parse_coordinate_spec(v) matches Some(
            (c, named),
        ) ==> coordinate_from_group_spec(group, key, ref_key) == Some(
            if named {
                c
            } else {
                CoordinateModel {
                    magnitude: c.magnitude,
                    hemisphere: Some(
                        reference@[0] == 'N' || reference@[0] == 'E' || reference@[0] == 'n'
                            || reference@[0] == 'e',
                    ),
                }
            },
        )),
{
    let r = reference@;
    assert(!text::is_ws(r[0]));
    assert(text::trim_start(r) == r);
    lemma_trim_end_keeps_first(r);
    let t = text::trim(r);
    assert(t[0] == r[0]);
    if t.len() >= 7 {
        assert(t.take(7)[0] == t[0]);
    }
    if t.len() >= 12 {
        assert(t.take(12)[0] == t[0]);
    }
    if t.len() == 5 {
        assert(text::ascii_lower(t[0]) != 'u');
    }
    text::lemma_trim_idempotent(r);
    assert(!coordinate::is_placeholder_spec(t));
    assert(coordinate::hemisphere_sign_spec(r) == Some(
        r[0] == 'N' || r[0] == 'E' || r[0] == 'n' || r[0] == 'e',
    ));
}

/// `s.split(',')` yields exactly two parts: the text before the one comma and the text after it.
pub open spec fn split_in_two(s: Seq<char>) -> Option<(Seq<char>, Seq<char>)> {
    if text::char_count(s, ',') == 1 {
        Some((s.take(text::index_of(s, ',')), s.skip(text::index_of(s, ',') + 1)))
    } else {
        None
    }
}

fn split_in_two_exec(s: &[char]) -> (r: Option<(usize, usize)>)
    ensures
        match split_in_two(s@) {
            Some((a, b)) => r matches Some((i, j)) && i == a.len() && j == i + 1 && j <= s@.len()
                && a == s@.take(i as int) && b == s@.skip(j as int),
            None => r is None,
        },
{
    let n = s.len();
    let mut count: usize = 0;
    let mut first: usize = n;
    let mut k: usize = 0;
    assert(s@.skip(0) =~= s@);
    while k < n
        invariant
            n == s@.len(),
            k <= n,
            count <= k,
            text::char_count(s@, ',') == count + text::char_count(s@.skip(k as int), ','),
            count == 0 ==> first == n && text::index_of(s@, ',') == k + text::index_of(s@.skip(k as int), ','),
            count > 0 ==> first < k && text::index_of(s@, ',') == first && s@[first as int] == ',',
        decreases n - k,
    {
        assert(s@.skip(k as int)[0] == s@[k as int]);
        assert(s@.skip(k as int).skip(1) =~= s@.skip(k + 1));
        if s[k] == ',' {
            if count == 0 {
                first = k;
            }
            count = count + 1;
        }
        k = k + 1;
    }
    if count == 1 {
        Some((first, first + 1))
    } else {
        None
    }
}

pub open spec fn lat_key() -> Seq<char> {
    "GPSLatitude"@
}

pub open spec fn lat_ref_key() -> Seq<char> {
    "GPSLatitudeRef"@
}

pub open spec fn lon_key() -> Seq<char> {
    "GPSLongitude"@
}

pub open spec fn lon_ref_key() -> Seq<char> {
    "GPSLongitudeRef"@
}

pub open spec fn position_key() -> Seq<char> {
    "GPSPosition"@
}

/// A location found in one metadata group: from a `GPSPosition` field, or from the
/// latitude and longitude fields.
pub struct LocationCandidate {
    pub latitude: Coordinate,
    pub longitude: Coordinate,
    pub from_position: bool,
}

pub struct CandidateModel {
    pub latitude: CoordinateModel,
    pub longitude: CoordinateModel,
    pub from_position: bool,
}

impl View for LocationCandidate {
    type V = CandidateModel;

    open spec fn view(&self) -> CandidateModel {
        CandidateModel {
            latitude: self.latitude@,
            longitude: self.longitude@,
            from_position: self.from_position,
        }
    }
}

/// The location of `Composite.GPSPosition` (`"<latitude>, <longitude>"`) in a group.
pub open spec fn position_candidate(g: Seq<(String, Json)>) -> Option<CandidateModel> {
    match json::member(g, position_key()) {
        Some(Json::Str(p)) => if coordinate::is_placeholder_spec(p@) {
            None
        } else {
            match split_in_two(p@) {
                Some((a, b)) => match (
                    coordinate::parse_coordinate_text(a),
                    coordinate::parse_coordinate_text(b),
                ) {
                    (Some((la, _)), Some((lo, _))) => Some(
                        CandidateModel { latitude: la, longitude: lo, from_position: true },
                    ),
                    _ => None,
                },
                None => None,
            }
        },
        _ => None,
    }
}

/// The location of the latitude and longitude fields of a group, with their references.
pub open spec fn pair_candidate(g: Seq<(String, Json)>) -> Option<CandidateModel> {
    match (
        coordinate_from_group_spec(g, lat_key(), lat_ref_key()),
        coordinate_from_group_spec(g, lon_key(), lon_ref_key()),
    ) {
        (Some(la), Some(lo)) => Some(
            CandidateModel { latitude: la, longitude: lo, from_position: false },
        ),
        _ => None,
    }
}

pub open spec fn opt_seq<A>(o: Option<A>) -> Seq<A> {
    match o {
        Some(a) => seq![a],
        None => seq![],
    }
}

/// The locations offered by the groups, in the order in which they are tried: for each
/// group its position field, then its latitude and longitude fields.
pub open spec fn candidates_of(groups: Seq<Seq<(String, Json)>>) -> Seq<CandidateModel>
    decreases groups.len(),
{
    if groups.len() == 0 {
        seq![]
    } else {
        opt_seq(position_candidate(groups[0])) + opt_seq(pair_candidate(groups[0]))
            + candidates_of(groups.skip(1))
    }
}

fn position_candidate_exec(g: &Vec<(String, Json)>) -> (r: Option<LocationCandidate>)
    ensures
        match r {
            Some(c) => position_candidate(g@) == Some(c@),
            None => position_candidate(g@) is None,
        },
{
    let key = String::from_str("GPSPosition");
    let p = match member_of(g, &key) {
        Some(Json::Str(p)) => p,
        _ => return None,
    };
    let chars = to_chars(p.as_str());
    if coordinate::is_placeholder_chars(chars.as_slice()) {
        return None;
    }
    let (i, j) = match split_in_two_exec(chars.as_slice()) {
        Some(ij) => ij,
        None => return None,
    };
    let a = copy_prefix(chars.as_slice(), i);
    let b = copy_suffix(chars.as_slice(), j);
    match (parse_coordinate_chars(a.as_slice()), parse_coordinate_chars(b.as_slice())) {
        (Some((la, _)), Some((lo, _))) => Some(
            LocationCandidate { latitude: la, longitude: lo, from_position: true },
        ),
        _ => None,
    }
}

fn copy_prefix(s: &[char], i: usize) -> (r: Vec<char>)
    requires
        i <= s@.len(),
    ensures
        r@ == s@.take(i as int),
{
    let mut v: Vec<char> = Vec::new();
    let mut k: usize = 0;
    while k < i
        invariant
            k <= i <= s@.len(),
            v@ == s@.take(k as int),
        decreases i - k,
    {
        v.push(s[k]);
        k = k + 1;
        assert(v@ =~= s@.take(k as int));
    }
    v
}

fn copy_suffix(s: &[char], j: usize) -> (r: Vec<char>)
    requires
        j <= s@.len(),
    ensures
        r@ == s@.skip(j as int),
{
    let mut v: Vec<char> = Vec::new();
    let mut k: usize = j;
    while k < s.len()
        invariant
            j <= k <= s@.len(),
            v@ == s@.subrange(j as int, k as int),
        decreases s@.len() - k,
    {
        v.push(s[k]);
        k = k + 1;
        assert(v@ =~= s@.subrange(j as int, k as int));
    }
    assert(s@.subrange(j as int, s@.len() as int) =~= s@.skip(j as int));
    v
}

fn pair_candidate_exec(g: &Vec<(String, Json)>) -> (r: Option<LocationCandidate>)
    ensures
        match r {
            Some(c) => pair_candidate(g@) == Some(c@),
            None => pair_candidate(g@) is None,
        },
{
    let lat = String::from_str("GPSLatitude");
    let lat_ref = String::from_str("GPSLatitudeRef");
    let lon = String::from_str("GPSLongitude");
    let lon_ref = String::from_str("GPSLongitudeRef");
    match (coordinate_from_group(g, &lat, &lat_ref), coordinate_from_group(g, &lon, &lon_ref)) {
        (Some(la), Some(lo)) => Some(
            LocationCandidate { latitude: la, longitude: lo, from_position: false },
        ),
        _ => None,
    }
}

/// The views of a list of candidates.
pub open spec fn candidate_views(v: Seq<LocationCandidate>) -> Seq<CandidateModel> {
    v.map_values(|c: LocationCandidate| c@)
}

fn candidates_exec(groups: &Vec<&Vec<(String, Json)>>) -> (r: Vec<LocationCandidate>)
    ensures
        candidate_views(r@) == candidates_of(group_views(groups@)),
{
    let ghost gs = group_views(groups@);
    let mut out: Vec<LocationCandidate> = Vec::new();
    let mut i: usize = 0;
    assert(gs.skip(0) =~= gs);
    assert(candidate_views(out@) =~= seq![]);
    while i < groups.len()
        invariant
            i <= groups@.len(),
            gs == group_views(groups@),
            candidate_views(out@) + candidates_of(gs.skip(i as int)) == candidates_of(gs),
        decreases groups.len() - i,
    {
        let ghost before = out@;
        let g = groups[i];
        assert(gs.skip(i as int)[0] == g@);
        assert(gs.skip(i as int).skip(1) =~= gs.skip(i + 1));
        match position_candidate_exec(g) {
            Some(c) => {
                out.push(c);
            },
            None => {},
        }
        match pair_candidate_exec(g) {
            Some(c) => {
                out.push(c);
            },
            None => {},
        }
        assert(candidate_views(out@) =~= candidate_views(before) + opt_seq(position_candidate(g@))
            + opt_seq(pair_candidate(g@)));
        i = i + 1;
    }
    assert(gs.skip(groups@.len() as int) =~= seq![]);
    out
}

/// The keys that hold the date taken, in order of preference.
pub open spec fn date_keys() -> Seq<Seq<char>> {
    seq!["DateTimeOriginal"@, "CreateDate"@, "DateTimeDigitized"@, "DateTime"@, "ModifyDate"@]
}

/// The first group, in order, whose field `key` holds a text that is not a placeholder.
pub open spec fn date_in_groups(groups: Seq<Seq<(String, Json)>>, key: Seq<char>) -> Option<
    Seq<char>,
>
    decreases groups.len(),
{
    if groups.len() == 0 {
        None
    } else {
        match json::member(groups[0], key) {
            Some(Json::Str(d)) => if !coordinate::is_placeholder_spec(d@) {
                Some(d@)
            } else {
                date_in_groups(groups.skip(1), key)
            },
            _ => date_in_groups(groups.skip(1), key),
        }
    }
}

/// The date taken: the first key in order of preference that some group fills.
pub open spec fn date_taken_spec(groups: Seq<Seq<(String, Json)>>, keys: Seq<Seq<char>>) -> Option<
    Seq<char>,
>
    decreases keys.len(),
{
    if keys.len() == 0 {
        None
    } else {
        match date_in_groups(groups, keys[0]) {
            Some(d) => Some(d),
            None => date_taken_spec(groups, keys.skip(1)),
        }
    }
}

fn date_in_groups_exec(groups: &Vec<&Vec<(String, Json)>>, key: &String) -> (r: Option<String>)
    ensures
        match r {
            Some(d) => date_in_groups(group_views(groups@), key@) == Some(d@),
            None => date_in_groups(group_views(groups@), key@) is None,
        },
{
    let ghost gs = group_views(groups@);
    let mut i: usize = 0;
    assert(gs.skip(0) =~= gs);
    while i < groups.len()
        invariant
            i <= groups@.len(),
            gs == group_views(groups@),
            date_in_groups(gs, key@) == date_in_groups(gs.skip(i as int), key@),
        decreases groups.len() - i,
    {
        let g = groups[i];
        assert(gs.skip(i as int)[0] == g@);
        assert(gs.skip(i as int).skip(1) =~= gs.skip(i + 1));
        match member_of(g, key) {
            Some(Json::Str(d)) => {
                if !is_placeholder(d.as_str()) {
                    return Some(d.clone());
                }
            },
            _ => {},
        }
        i = i + 1;
    }
    None
}

fn date_taken_exec(groups: &Vec<&Vec<(String, Json)>>) -> (r: Option<String>)
    ensures
        match r {
            Some(d) => date_taken_spec(group_views(groups@), date_keys()) == Some(d@),
            None => date_taken_spec(group_views(groups@), date_keys()) is None,
        },
{
    let mut keys: Vec<String> = Vec::new();
    keys.push(String::from_str("DateTimeOriginal"));
    keys.push(String::from_str("CreateDate"));
    keys.push(String::from_str("DateTimeDigitized"));
    keys.push(String::from_str("DateTime"));
    keys.push(String::from_str("ModifyDate"));
    let ghost ks = date_keys();
    let ghost gs = group_views(groups@);
    assert(keys@.map_values(|t: String| t@) =~= ks);
    let mut i: usize = 0;
    assert(ks.skip(0) =~= ks);
    while i < keys.len()
        invariant
            i <= keys@.len(),
            keys@.map_values(|t: String| t@) == ks,
            ks == date_keys(),
            gs == group_views(groups@),
            date_taken_spec(gs, ks) == date_taken_spec(gs, ks.skip(i as int)),
        decreases keys.len() - i,
    {
        assert(ks.skip(i as int)[0] == keys@[i as int]@);
        assert(ks.skip(i as int).skip(1) =~= ks.skip(i + 1));
        match date_in_groups_exec(groups, &keys[i]) {
            Some(d) => {
                assert(date_taken_spec(gs, ks.skip(i as int)) == Some(d@));
                return Some(d);
            },
            None => {},
        }
        i = i + 1;
    }
    None
}

/// The value examined: the first element of a top-level array, or the value itself.
pub open spec fn metadata_root(metadata: Json) -> Json {
    match metadata {
        Json::Array(a) => if a@.len() > 0 {
            a@[0]
        } else {
            metadata
        },
        _ => metadata,
    }
}

/// What `embedded_metadata` says of a photo: the locations it offers, in the order in which
/// they are tried, and the date taken.
pub struct EmbeddedMetadata {
    pub candidates: Vec<LocationCandidate>,
    pub date_taken: Option<String>,
}

/// `extract_embedded_location_and_datetime`: the candidate locations of the metadata
/// (completed into one location by `select_location`) and its date taken.
pub fn extract_embedded_location_and_datetime(metadata: &Json) -> (r: EmbeddedMetadata)
    ensures
        candidate_views(r.candidates@) == candidates_of(
            metadata_groups_spec(metadata_root(*metadata)),
        ),
        match r.date_taken {
            Some(d) => date_taken_spec(metadata_groups_spec(metadata_root(*metadata)), date_keys())
                == Some(d@),
            None => date_taken_spec(
                metadata_groups_spec(metadata_root(*metadata)),
                date_keys(),
            ) is None,
        },
{
    let root = match metadata {
        Json::Array(a) => if a.len() > 0 {
            &a[0]
        } else {
            metadata
        },
        _ => metadata,
    };
    let groups = metadata_groups(root);
    let candidates = candidates_exec(&groups);
    let date_taken = date_taken_exec(&groups);
    EmbeddedMetadata { candidates, date_taken }
}

/// The index of the location chosen among `candidates`: the first one that does not lie at
/// latitude 0, longitude 0 (`at_origin[i]` tells, for candidate `i`, whether its latitude and
/// longitude are both zero), whichever field it comes from. Corrupt EXIF often writes `0, 0`
/// for a missing location, so such a location counts as none.
pub open spec fn select_location_spec(at_origin: Seq<bool>) -> Option<int>
    decreases at_origin.len(),
{
    if at_origin.len() == 0 {
        None
    } else if !at_origin[0] {
        Some(0)
    } else {
        match select_location_spec(at_origin.skip(1)) {
            Some(i) => Some(i + 1),
            None => None,
        }
    }
}

pub fn select_location(candidates: &Vec<LocationCandidate>, at_origin: &Vec<bool>) -> (r: Option<
    usize,
>)
    requires
        at_origin@.len() == candidates@.len(),
    ensures
        r == match select_location_spec(at_origin@) {
            Some(i) => Some(i as usize),
            None => None::<usize>,
        },
        r matches Some(i) ==> i < candidates@.len() && !at_origin@[i as int],
        r matches Some(i) ==> forall|j: int| 0 <= j < i ==> #[trigger] at_origin@[j],
        r is None ==> forall|j: int| 0 <= j < candidates@.len() ==> #[trigger] at_origin@[j],
{
    let mut i: usize = 0;
    assert(at_origin@.skip(0) =~= at_origin@);
    while i < candidates.len()
        invariant
            i <= candidates@.len(),
            at_origin@.len() == candidates@.len(),
            forall|j: int| 0 <= j < i ==> #[trigger] at_origin@[j],
            select_location_spec(at_origin@) == match select_location_spec(
                at_origin@.skip(i as int),
            ) {
                Some(k) => Some(k + i),
                None => None,
            },
        decreases candidates.len() - i,
    {
        assert(at_origin@.skip(i as int)[0] == at_origin@[i as int]);
        let zero = at_origin[i];
        if !zero {
            return Some(i);
        }
        assert(at_origin@.skip(i as int).skip(1) =~= at_origin@.skip(i + 1));
        i = i + 1;
    }
    None
}

} // verus!
