use vstd::prelude::*;
use vstd::string::*;
use vstd::utf8::encode_utf8;
use hmac::Mac;
use crate::fields::{float_opt, float_value, i32_opt, i32_value, i64_value, string_of, text_opt};
use crate::number::{parse_i32, parse_i64, FloatText};
use crate::text::{chars_of, lookup, lower_of, lowercase, range_is, trim_range, trimmed};
use crate::time::{instant_of_millis, millis_of, utc_from_millis, Timestamp};

verus! {

broadcast use vstd::string::group_string_axioms;

/// The name and value pairs, percent-decoded, that url's
/// `form_urlencoded::parse` reads from a form body.
pub uninterp spec fn form_decoded(s: Seq<char>) -> Seq<(Seq<char>, Seq<char>)>;

/// The HMAC-SHA1 digest of `msg` under `key`.
pub uninterp spec fn hmac_sha1_of(key: Seq<u8>, msg: Seq<u8>) -> Seq<u8>;

pub open spec fn pairs_view(v: Seq<(String, String)>) -> Seq<(Seq<char>, Seq<char>)> {
    v.map_values(|p: (String, String)| (p.0@, p.1@))
}

/// Relies on url's `form_urlencoded::parse`: the pairs it reads depend on
/// the body alone.
#[verifier::external_body]
fn form_pairs(payload: &str) -> (r: Vec<(String, String)>)
    ensures
        pairs_view(r@) == form_decoded(payload@),
{
    url::form_urlencoded::parse(payload.as_bytes()).map(|(k, v)| (k.into_owned(), v.into_owned())).collect()
}

/// Relies on hmac's `Hmac<Sha1>` (with sha1's `Sha1`): the digest depends on
/// the key and the message alone, and has 20 bytes. Any key length is taken.
#[verifier::external_body]
fn hmac_sha1(key: &[u8], msg: &[u8]) -> (r: Vec<u8>)
    ensures
        r@ == hmac_sha1_of(key@, msg@),
        r@.len() == 20,
{
    match <hmac::Hmac<sha1::Sha1> as Mac>::new_from_slice(key) {
        Ok(mut mac) => {
            mac.update(msg);
            mac.finalize().into_bytes().to_vec()
        },
        Err(_) => Vec::new(),
    }
}

/// The lower-case hexadecimal digit of `n`.
pub open spec fn hex_digit(n: u8) -> char {
    if n < 10 {
        (n + 48) as u8 as char
    } else {
        (n + 87) as u8 as char
    }
}

/// Bytes written as two lower-case hexadecimal digits each.
pub open spec fn hex_lower(b: Seq<u8>) -> Seq<char>
    decreases b.len(),
{
    if b.len() == 0 {
        Seq::empty()
    } else {
        hex_lower(b.drop_last()).push(hex_digit((b.last() / 16) as u8)).push(hex_digit((b.last() % 16) as u8))
    }
}

/// Relies on hex's `encode`: two lower-case hexadecimal digits per byte.
#[verifier::external_body]
fn hex_encode(b: &[u8]) -> (r: String)
    ensures
        r@ == hex_lower(b@),
{
    hex::encode(b)
}

pub open spec fn hmac_marker() -> Seq<char> {
    seq!['&', 'h', 'm', 'a', 'c', '=']
}

/// The field separator and name of the digest, `&hmac=`, start at `i`.
pub open spec fn is_hmac_at(s: Seq<char>, i: int) -> bool {
    0 <= i && i + 6 <= s.len() && s.subrange(i, i + 6) == hmac_marker()
}

/// `&hmac=` stands in `s` at `i` and nowhere else, so that `s` splits on it
/// into exactly two parts.
pub open spec fn hmac_only_at(s: Seq<char>, i: int) -> bool {
    is_hmac_at(s, i) && forall|j: int| #[trigger] is_hmac_at(s, j) ==> j == i
}

/// The payload splits on `&hmac=` into a message and a digest, and the digest
/// is the hexadecimal HMAC-SHA1 of the message's UTF-8 bytes under `key`.
pub open spec fn is_authentic(s: Seq<char>, key: Seq<u8>) -> bool {
    exists|i: int|
        #[trigger] hmac_only_at(s, i) && hex_lower(hmac_sha1_of(key, encode_utf8(s.take(i))))
            == s.skip(i + 6)
}

/// A source of activation, kept where it is `call` or `sms`.
pub open spec fn source_code(s: Seq<char>) -> Option<Seq<char>> {
    if s == seq!['c', 'a', 'l', 'l'] || s == seq!['s', 'm', 's'] {
        Some(s)
    } else {
        None
    }
}

/// A location source, kept where it is `gps`, `wifi`, `cell` or `unknown`.
pub open spec fn location_code(s: Seq<char>) -> Option<Seq<char>> {
    if s == seq!['g', 'p', 's'] || s == seq!['w', 'i', 'f', 'i'] || s == seq!['c', 'e', 'l', 'l']
        || s == seq!['u', 'n', 'k', 'n', 'o', 'w', 'n'] {
        Some(s)
    } else {
        None
    }
}

/// The trimmed value of the last pair named `key`.
pub open spec fn form_value(p: Seq<(Seq<char>, Seq<char>)>, key: Seq<char>) -> Option<Seq<char>> {
    match lookup(p, key) {
        Some(v) => Some(trimmed(v)),
        None => None,
    }
}

/// A value read as milliseconds since the epoch.
pub open spec fn millis_value(v: Option<Seq<char>>) -> Option<int> {
    match i64_value(v) {
        Some(m) => instant_of_millis(m),
        None => None,
    }
}

/// A value lower-cased and kept by `code`.
pub open spec fn lower_value(v: Option<Seq<char>>, location: bool) -> Option<Seq<char>> {
    match v {
        Some(x) => if location {
            location_code(lower_of(x))
        } else {
            source_code(lower_of(x))
        },
        None => None,
    }
}

/// An AML message received over HTTPS, decoded.
#[derive(Debug)]
pub struct HttpsData {
    /// The version of AML.
    pub v: Option<String>,
    /// The emergency number dialed.
    pub emergency_number: Option<String>,
    /// The source of activation: `call` or `sms`.
    pub source: Option<String>,
    /// The version of the sending module.
    pub thunderbird_version: Option<String>,
    /// The beginning of the call.
    pub time: Option<Timestamp>,
    /// Ground truth latitude, for testing.
    pub gt_location_latitude: Option<FloatText>,
    /// Ground truth longitude, for testing.
    pub gt_location_longitude: Option<FloatText>,
    /// The WGS84 latitude in degrees.
    pub location_latitude: Option<FloatText>,
    /// The WGS84 longitude in degrees.
    pub location_longitude: Option<FloatText>,
    /// When the handset determined its location.
    pub location_time: Option<Timestamp>,
    /// Vertical location in metres.
    pub location_altitude: Option<FloatText>,
    /// Floor label.
    pub location_floor: Option<FloatText>,
    /// How the location was found: `gps`, `wifi`, `cell` or `unknown`.
    pub location_source: Option<String>,
    /// Location accuracy in metres.
    pub location_accuracy: Option<FloatText>,
    /// Vertical accuracy in metres.
    pub location_vertical_accuracy: Option<FloatText>,
    /// Confidence in the location accuracy.
    pub location_confidence: Option<FloatText>,
    /// Bearing in degrees.
    pub location_bearing: Option<FloatText>,
    /// Speed in metres per second.
    pub location_speed: Option<FloatText>,
    /// The phone number of the device.
    pub device_number: Option<String>,
    /// The model of the device.
    pub device_model: Option<String>,
    /// The identifier of the SIM card.
    pub device_imsi: Option<String>,
    /// The identifier of the handset.
    pub device_imei: Option<String>,
    /// Integrated Circuit Card Identification number.
    pub device_iccid: Option<String>,
    /// Home Mobile Country Code.
    pub cell_home_mcc: Option<i32>,
    /// Home Mobile Network Code.
    pub cell_home_mnc: Option<i32>,
    /// Mobile Country Code of the network the call was made on.
    pub cell_network_mcc: Option<i32>,
    /// Mobile Network Code of the network the call was made on.
    pub cell_network_mnc: Option<i32>,
    /// BCP 47 language tags, comma separated, highest priority first.
    pub device_languages: Option<String>,
    /// The time of a car crash.
    pub adr_carcrash_time: Option<Timestamp>,
    /// The message authentication code.
    pub hmac: Option<String>,
}

} // verus!

verus! {

/// `r` is what the form pairs `p` decode to: the last pair of each known
/// name gives its field, its value trimmed; a value that its field cannot
/// take leaves the field absent.
pub open spec fn is_https(r: HttpsData, p: Seq<(Seq<char>, Seq<char>)>) -> bool {
    &&& text_opt(r.v) == form_value(p, "v"@)
    &&& text_opt(r.emergency_number) == form_value(p, "emergency_number"@)
    &&& text_opt(r.source) == lower_value(form_value(p, "source"@), false)
    &&& text_opt(r.thunderbird_version) == form_value(p, "thunderbird_version"@)
    &&& millis_of(r.time) == millis_value(form_value(p, "time"@))
    &&& float_opt(r.gt_location_latitude) == float_value(form_value(p, "gt_location_latitude"@))
    &&& float_opt(r.gt_location_longitude) == float_value(form_value(p, "gt_location_longitude"@))
    &&& float_opt(r.location_latitude) == float_value(form_value(p, "location_latitude"@))
    &&& float_opt(r.location_longitude) == float_value(form_value(p, "location_longitude"@))
    &&& millis_of(r.location_time) == millis_value(form_value(p, "location_time"@))
    &&& float_opt(r.location_altitude) == float_value(form_value(p, "location_altitude"@))
    &&& float_opt(r.location_floor) == float_value(form_value(p, "location_floor"@))
    &&& text_opt(r.location_source) == lower_value(form_value(p, "location_source"@), true)
    &&& float_opt(r.location_accuracy) == float_value(form_value(p, "location_accuracy"@))
    &&& float_opt(r.location_vertical_accuracy) == float_value(
        form_value(p, "location_vertical_accuracy"@),
    )
    &&& float_opt(r.location_confidence) == float_value(form_value(p, "location_confidence"@))
    &&& float_opt(r.location_bearing) == float_value(form_value(p, "location_bearing"@))
    &&& float_opt(r.location_speed) == float_value(form_value(p, "location_speed"@))
    &&& text_opt(r.device_number) == form_value(p, "device_number"@)
    &&& text_opt(r.device_model) == form_value(p, "device_model"@)
    &&& text_opt(r.device_imsi) == form_value(p, "device_imsi"@)
    &&& text_opt(r.device_imei) == form_value(p, "device_imei"@)
    &&& text_opt(r.device_iccid) == form_value(p, "device_iccid"@)
    &&& i32_opt(r.cell_home_mcc) == i32_value(form_value(p, "cell_home_mcc"@))
    &&& i32_opt(r.cell_home_mnc) == i32_value(form_value(p, "cell_home_mnc"@))
    &&& i32_opt(r.cell_network_mcc) == i32_value(form_value(p, "cell_network_mcc"@))
    &&& i32_opt(r.cell_network_mnc) == i32_value(form_value(p, "cell_network_mnc"@))
    &&& text_opt(r.device_languages) == form_value(p, "device_languages"@)
    &&& millis_of(r.adr_carcrash_time) == millis_value(form_value(p, "adr_carcrash_time"@))
    &&& text_opt(r.hmac) == form_value(p, "hmac"@)
}

/// Form pairs with the characters of their names.
struct Form<'a> {
    pairs: &'a Vec<(String, String)>,
    keys: Vec<Vec<char>>,
}

impl<'a> Form<'a> {
    spec fn wf(&self) -> bool {
        &&& self.keys@.len() == self.pairs@.len()
        &&& forall|i: int| 0 <= i < self.keys@.len() ==> (#[trigger] self.keys@[i])@ == self.pairs@[i].0@
    }

    spec fn view_pairs(&self) -> Seq<(Seq<char>, Seq<char>)> {
        pairs_view(self.pairs@)
    }

    fn new(pairs: &'a Vec<(String, String)>) -> (r: Form<'a>)
        ensures
            r.wf(),
            r.pairs == pairs,
    {
        let mut keys: Vec<Vec<char>> = Vec::new();
        let mut i: usize = 0;
        while i < pairs.len()
            invariant
                i <= pairs@.len(),
                keys@.len() == i,
                forall|j: int| 0 <= j < i ==> (#[trigger] keys@[j])@ == pairs@[j].0@,
            decreases pairs@.len() - i,
        {
            keys.push(chars_of(pairs[i].0.as_str()));
            i = i + 1;
        }
        Form { pairs, keys }
    }

    /// The value of the last pair named `key`, its characters, and the bounds
    /// of the value trimmed.
    fn value(&self, key: &str) -> (r: Option<(&'a String, Vec<char>, usize, usize)>)
        requires
            self.wf(),
        ensures
            match r {
                Some((s, cs, a, b)) => cs@ == s@ && a <= b <= cs@.len() && form_value(
                    self.view_pairs(),
                    key@,
                ) == Some(cs@.subrange(a as int, b as int)),
                None => form_value(self.view_pairs(), key@) is None,
            },
    {
        let ghost all = self.view_pairs();
        let mut j = self.pairs.len();
        assert(all.take(j as int) == all);
        while j > 0
            invariant
                j <= self.pairs@.len(),
                self.wf(),
                all == self.view_pairs(),
                lookup(all, key@) == lookup(all.take(j as int), key@),
            decreases j,
        {
            assert(all.take(j as int).drop_last() == all.take(j - 1));
            let k = &self.keys[j - 1];
            assert(k@.subrange(0, k@.len() as int) == k@);
            if range_is(k, 0, k.len(), key) {
                let s: &'a String = &self.pairs[j - 1].1;
                let cs = chars_of(s.as_str());
                let (a, b) = trim_range(&cs, 0, cs.len());
                assert(cs@.subrange(0, cs@.len() as int) == cs@);
                return Some((s, cs, a, b));
            }
            j = j - 1;
        }
        None
    }

    fn text_of(&self, key: &str) -> (r: Option<String>)
        requires
            self.wf(),
        ensures
            text_opt(r) == form_value(self.view_pairs(), key@),
    {
        match self.value(key) {
            Some((s, cs, a, b)) => Some(string_of(s.as_str(), a, b)),
            None => None,
        }
    }

    fn float_of(&self, key: &str) -> (r: Option<FloatText>)
        requires
            self.wf(),
        ensures
            float_opt(r) == float_value(form_value(self.view_pairs(), key@)),
    {
        match self.value(key) {
            Some((s, cs, a, b)) => FloatText::parse(s.as_str().substring_char(a, b)),
            None => None,
        }
    }

    fn i32_of(&self, key: &str) -> (r: Option<i32>)
        requires
            self.wf(),
        ensures
            i32_opt(r) == i32_value(form_value(self.view_pairs(), key@)),
    {
        match self.value(key) {
            Some((s, cs, a, b)) => parse_i32(&cs, a, b),
            None => None,
        }
    }

    fn time_of(&self, key: &str) -> (r: Option<Timestamp>)
        requires
            self.wf(),
        ensures
            millis_of(r) == millis_value(form_value(self.view_pairs(), key@)),
    {
        match self.value(key) {
            Some((s, cs, a, b)) => match parse_i64(&cs, a, b) {
                Some(m) => utc_from_millis(m),
                None => None,
            },
            None => None,
        }
    }

    fn lower_of_key(&self, key: &str, location: bool) -> (r: Option<String>)
        requires
            self.wf(),
        ensures
            text_opt(r) == lower_value(form_value(self.view_pairs(), key@), location),
    {
        match self.value(key) {
            Some((s, cs, a, b)) => {
                let lower = lowercase(s.as_str().substring_char(a, b));
                if location {
                    HttpsData::location_source_code(lower.as_str())
                } else {
                    HttpsData::source_code(lower.as_str())
                }
            },
            None => None,
        }
    }
}

/// Whether `s` is all of `cs`.
fn whole_is(cs: &Vec<char>, s: &str) -> (r: bool)
    ensures
        r == (cs@ == s@),
{
    assert(cs@.subrange(0, cs@.len() as int) == cs@);
    range_is(cs, 0, cs.len(), s)
}

impl HttpsData {
    /// A lower-cased source of activation, kept where it is `call` or `sms`.
    pub fn source_code(lower: &str) -> (r: Option<String>)
        ensures
            text_opt(r) == source_code(lower@),
    {
        proof {
            reveal_strlit("call");
            reveal_strlit("sms");
            assert("call"@ == seq!['c', 'a', 'l', 'l']);
            assert("sms"@ == seq!['s', 'm', 's']);
        }
        let cs = chars_of(lower);
        if whole_is(&cs, "call") || whole_is(&cs, "sms") {
            Some(String::from_str(lower))
        } else {
            None
        }
    }

    /// A lower-cased location source, kept where it is `gps`, `wifi`, `cell`
    /// or `unknown`.
    pub fn location_source_code(lower: &str) -> (r: Option<String>)
        ensures
            text_opt(r) == location_code(lower@),
    {
        proof {
            reveal_strlit("gps");
            reveal_strlit("wifi");
            reveal_strlit("cell");
            reveal_strlit("unknown");
            assert("gps"@ == seq!['g', 'p', 's']);
            assert("wifi"@ == seq!['w', 'i', 'f', 'i']);
            assert("cell"@ == seq!['c', 'e', 'l', 'l']);
            assert("unknown"@ == seq!['u', 'n', 'k', 'n', 'o', 'w', 'n']);
        }
        let cs = chars_of(lower);
        if whole_is(&cs, "gps") || whole_is(&cs, "wifi") || whole_is(&cs, "cell") || whole_is(
            &cs,
            "unknown",
        ) {
            Some(String::from_str(lower))
        } else {
            None
        }
    }

    /// Decodes form pairs, already percent-decoded, into the fields they name.
    pub fn from_pairs(pairs: &Vec<(String, String)>) -> (r: HttpsData)
        ensures
            is_https(r, pairs_view(pairs@)),
    {
        let f = Form::new(pairs);
        HttpsData {
            v: f.text_of("v"),
            emergency_number: f.text_of("emergency_number"),
            source: f.lower_of_key("source", false),
            thunderbird_version: f.text_of("thunderbird_version"),
            time: f.time_of("time"),
            gt_location_latitude: f.float_of("gt_location_latitude"),
            gt_location_longitude: f.float_of("gt_location_longitude"),
            location_latitude: f.float_of("location_latitude"),
            location_longitude: f.float_of("location_longitude"),
            location_time: f.time_of("location_time"),
            location_altitude: f.float_of("location_altitude"),
            location_floor: f.float_of("location_floor"),
            location_source: f.lower_of_key("location_source", true),
            location_accuracy: f.float_of("location_accuracy"),
            location_vertical_accuracy: f.float_of("location_vertical_accuracy"),
            location_confidence: f.float_of("location_confidence"),
            location_bearing: f.float_of("location_bearing"),
            location_speed: f.float_of("location_speed"),
            device_number: f.text_of("device_number"),
            device_model: f.text_of("device_model"),
            device_imsi: f.text_of("device_imsi"),
            device_imei: f.text_of("device_imei"),
            device_iccid: f.text_of("device_iccid"),
            cell_home_mcc: f.i32_of("cell_home_mcc"),
            cell_home_mnc: f.i32_of("cell_home_mnc"),
            cell_network_mcc: f.i32_of("cell_network_mcc"),
            cell_network_mnc: f.i32_of("cell_network_mnc"),
            device_languages: f.text_of("device_languages"),
            adr_carcrash_time: f.time_of("adr_carcrash_time"),
            hmac: f.text_of("hmac"),
        }
    }

    /// Decodes an `application/x-www-form-urlencoded` body. It never fails:
    /// a field whose value does not fit is left absent.
    pub fn from_urlencoded(payload: &str) -> (r: HttpsData)
        ensures
            is_https(r, form_decoded(payload@)),
    {
        let pairs = form_pairs(payload);
        Self::from_pairs(&pairs)
    }

    /// Where `&hmac=` stands in `s`, if it stands there exactly once.
    pub fn hmac_position(s: &Vec<char>) -> (r: Option<usize>)
        ensures
            match r {
                Some(i) => hmac_only_at(s@, i as int),
                None => forall|i: int| !hmac_only_at(s@, i),
            },
    {
        proof {
            reveal_strlit("&hmac=");
            assert("&hmac="@ == hmac_marker());
        }
        let n = s.len();
        let mut found: Option<usize> = None;
        let mut i: usize = 0;
        while n >= 6 && i <= n - 6
            invariant
                n == s@.len(),
                i <= n,
                "&hmac="@ == hmac_marker(),
                found is None ==> forall|j: int| 0 <= j < i ==> !is_hmac_at(s@, j),
                found is Some ==> found->0 < i && is_hmac_at(s@, found->0 as int) && forall|j: int|
                    0 <= j < i && j != found->0 ==> !is_hmac_at(s@, j),
            decreases n - i,
        {
            if range_is(s, i, i + 6, "&hmac=") {
                if found.is_some() {
                    assert(is_hmac_at(s@, i as int));
                    return None;
                }
                found = Some(i);
            }
            i = i + 1;
        }
        assert(forall|j: int| j >= i ==> !is_hmac_at(s@, j));
        found
    }

    /// Whether `tag` is the digest `digest` in lower-case hexadecimal.
    pub fn digest_matches(tag: &str, digest: &[u8]) -> (r: bool)
        ensures
            r == (tag@ == hex_lower(digest@)),
    {
        let hex = hex_encode(digest);
        let t = String::from_str(tag);
        hex == t
    }

    /// Checks the digest that ends a payload: the payload must split on
    /// `&hmac=` into exactly two parts, and the second must be the
    /// hexadecimal HMAC-SHA1 of the first under `key`.
    pub fn is_authenticated(payload: &str, key: &[u8]) -> (r: bool)
        ensures
            r == is_authentic(payload@, key@),
    {
        let cs = chars_of(payload);
        match Self::hmac_position(&cs) {
            Some(i) => {
                assert(is_hmac_at(cs@, i as int));
                let message = payload.substring_char(0, i);
                let tag = payload.substring_char(i + 6, cs.len());
                assert(message@ == payload@.take(i as int));
                assert(tag@ == payload@.skip(i + 6));
                let digest = hmac_sha1(key, message.as_bytes());
                let r = Self::digest_matches(tag, digest.as_slice());
                proof {
                    if !r {
                        assert forall|j: int| #[trigger] hmac_only_at(payload@, j) implies hex_lower(
                            hmac_sha1_of(key@, encode_utf8(payload@.take(j))),
                        ) != payload@.skip(j + 6) by {
                            assert(j == i);
                        }
                    }
                }
                r
            },
            None => false,
        }
    }
}

} // verus!
