use vstd::prelude::*;
use vstd::string::*;
use crate::AmlError;
use crate::fields::{
    fields_in, fields_view, find_value, float_opt, float_value, get_properties,
    i64_value, properties, split_range, string_of, text_opt, usize_opt, usize_value, Field,
};
use crate::number::{parse_i64, parse_usize, FloatText};
use crate::text::{
    ascii_chars, ascii_string, chars_of, lookup, range_is, split_on, upper_of, uppercase,
};
use crate::time::{
    instant_of_seconds, millis_of, naive_utc_millis, parse_naive_utc, utc_from_seconds, Timestamp,
};

verus! {

broadcast use vstd::string::group_string_axioms;

/// The pattern of the positioning time of a version 1 SMS.
pub const DATETIME_FORMAT: &'static str = "%Y%m%d%H%M%S";

/// An AML SMS, decoded.
#[derive(Debug)]
pub struct SmsData {
    /// The version of AML, the value of the header field.
    pub header: Option<String>,
    /// The emergency number dialed (112, 911, ...).
    pub emergency_number: Option<String>,
    /// The beginning of the emergency call.
    pub beginning_of_call: Option<Timestamp>,
    /// The WGS84 latitude in degrees.
    pub latitude: Option<FloatText>,
    /// The WGS84 longitude in degrees.
    pub longitude: Option<FloatText>,
    /// The accuracy (radius) of the location in metres.
    pub accuracy: Option<FloatText>,
    /// When the handset determined its location.
    pub time_of_positioning: Option<Timestamp>,
    /// The percentage probability that the handset is within the area.
    pub level_of_confidence: Option<FloatText>,
    /// Vertical location in metres.
    pub altitude: Option<FloatText>,
    /// Vertical accuracy in metres.
    pub vertical_accuracy: Option<FloatText>,
    /// How the location was found: one of `G`, `W`, `C`, `U` and, from version 2, `F`.
    pub positioning_method: Option<String>,
    /// The identifier of the SIM card of the handset.
    pub imsi: Option<String>,
    /// The identifier of the handset.
    pub imei: Option<String>,
    /// Mobile Country Code of the network the call was made on.
    pub network_mcc: Option<usize>,
    /// Mobile Network Code of the network the call was made on.
    pub network_mnc: Option<usize>,
    /// Home Mobile Country Code.
    pub home_mcc: Option<usize>,
    /// Home Mobile Network Code.
    pub home_mnc: Option<usize>,
    /// Language tags (IETF BCP 47).
    pub languages: Option<String>,
    /// (version 1) The length of the whole SMS that the message states.
    pub message_length: Option<usize>,
    /// Version 1: the stated length is the length of the text in bytes.
    /// Version 2: always.
    pub is_validated: bool,
}

/// A version 1 AML SMS, decoded.
#[derive(Debug)]
pub struct SmsDataV1 {
    /// The version of AML, the value of the header field.
    pub header: Option<String>,
    /// The WGS84 latitude in degrees.
    pub latitude: Option<FloatText>,
    /// The WGS84 longitude in degrees.
    pub longitude: Option<FloatText>,
    /// The radius of the location area in metres.
    pub radius: Option<FloatText>,
    /// When the handset determined its location.
    pub time_of_positioning: Option<Timestamp>,
    /// The percentage probability that the handset is within the area.
    pub level_of_confidence: Option<FloatText>,
    /// How the location was found: one of `G`, `W`, `C`, `U`.
    pub positioning_method: Option<String>,
    /// The identifier of the SIM card of the handset.
    pub imsi: Option<String>,
    /// The identifier of the handset.
    pub imei: Option<String>,
    /// Mobile Country Code of the network the call was made on.
    pub network_mcc: Option<usize>,
    /// Mobile Network Code of the network the call was made on.
    pub network_mnc: Option<usize>,
    /// The length of the whole SMS that the message states.
    pub message_length: Option<usize>,
    /// The stated length is the length of the text in bytes.
    pub is_validated: bool,
}

/// A version 2 AML SMS, decoded.
#[derive(Debug)]
pub struct SmsDataV2 {
    /// The version of AML, the value of the header field.
    pub header: Option<String>,
    /// The emergency number dialed.
    pub emergency_number: Option<String>,
    /// The beginning of the emergency call.
    pub beginning_of_call: Option<Timestamp>,
    /// The WGS84 latitude in degrees.
    pub latitude: Option<FloatText>,
    /// The WGS84 longitude in degrees.
    pub longitude: Option<FloatText>,
    /// The accuracy of the location in metres.
    pub accuracy: Option<FloatText>,
    /// When the handset determined its location.
    pub time_of_positioning: Option<Timestamp>,
    /// The percentage probability that the handset is within the area.
    pub level_of_confidence: Option<FloatText>,
    /// Vertical location in metres.
    pub altitude: Option<FloatText>,
    /// Vertical accuracy in metres.
    pub vertical_accuracy: Option<FloatText>,
    /// How the location was found: one of `G`, `W`, `C`, `U`, `F`.
    pub positioning_method: Option<String>,
    /// The identifier of the handset.
    pub imei: Option<String>,
    /// Mobile Country Code of the network the call was made on.
    pub network_mcc: Option<usize>,
    /// Mobile Network Code of the network the call was made on.
    pub network_mnc: Option<usize>,
    /// Home Mobile Country Code.
    pub home_mcc: Option<usize>,
    /// Home Mobile Network Code.
    pub home_mnc: Option<usize>,
    /// Language tags (IETF BCP 47).
    pub language: Option<String>,
}

/// An AML SMS decoded under the grammar of its version.
#[derive(Debug)]
pub enum VersionedSms {
    V1(SmsDataV1),
    V2(SmsDataV2),
}

/// The flat record of a version 1 SMS.
pub open spec fn flat_v1(d: SmsDataV1) -> SmsData {
    SmsData {
        header: d.header,
        emergency_number: None,
        beginning_of_call: None,
        latitude: d.latitude,
        longitude: d.longitude,
        accuracy: d.radius,
        time_of_positioning: d.time_of_positioning,
        level_of_confidence: d.level_of_confidence,
        altitude: None,
        vertical_accuracy: None,
        positioning_method: d.positioning_method,
        imsi: d.imsi,
        imei: d.imei,
        network_mcc: d.network_mcc,
        network_mnc: d.network_mnc,
        home_mcc: None,
        home_mnc: None,
        languages: None,
        message_length: d.message_length,
        is_validated: d.is_validated,
    }
}

/// The flat record of a version 2 SMS.
pub open spec fn flat_v2(d: SmsDataV2) -> SmsData {
    SmsData {
        header: d.header,
        emergency_number: d.emergency_number,
        beginning_of_call: d.beginning_of_call,
        latitude: d.latitude,
        longitude: d.longitude,
        accuracy: d.accuracy,
        time_of_positioning: d.time_of_positioning,
        level_of_confidence: d.level_of_confidence,
        altitude: d.altitude,
        vertical_accuracy: d.vertical_accuracy,
        positioning_method: d.positioning_method,
        imsi: None,
        imei: d.imei,
        network_mcc: d.network_mcc,
        network_mnc: d.network_mnc,
        home_mcc: d.home_mcc,
        home_mnc: d.home_mnc,
        languages: d.language,
        message_length: None,
        is_validated: true,
    }
}

/// The flat record of a versioned one.
pub open spec fn flat(v: VersionedSms) -> SmsData {
    match v {
        VersionedSms::V1(d) => flat_v1(d),
        VersionedSms::V2(d) => flat_v2(d),
    }
}

pub open spec fn header_key() -> Seq<char> {
    seq!['A', '"', 'M', 'L']
}

/// A positioning-method code, kept where it is one of `G`, `W`, `C`, `U`,
/// and `F` where `fused` allows it.
pub open spec fn method_code(s: Seq<char>, fused: bool) -> Option<Seq<char>> {
    if s == seq!['G'] || s == seq!['W'] || s == seq!['C'] || s == seq!['U'] || (fused && s
        == seq!['F']) {
        Some(s)
    } else {
        None
    }
}

/// The positioning method of a property, upper-cased.
pub open spec fn method_value(v: Option<Seq<char>>, fused: bool) -> Option<Seq<char>> {
    match v {
        Some(x) => method_code(upper_of(x), fused),
        None => None,
    }
}

/// Piece `i` of a comma-separated value.
pub open spec fn part(v: Option<Seq<char>>, i: int) -> Option<Seq<char>> {
    match v {
        Some(x) => {
            let ps = split_on(x, ',');
            if i < ps.len() {
                Some(ps[i])
            } else {
                None
            }
        },
        None => None,
    }
}

/// The country code of a network code: its first three characters.
pub open spec fn code_head(v: Option<Seq<char>>) -> Option<Seq<char>> {
    match v {
        Some(x) => if x.len() >= 3 {
            Some(x.take(3))
        } else {
            None
        },
        None => None,
    }
}

/// The network code of a network code: what follows its first three characters.
pub open spec fn code_rest(v: Option<Seq<char>>) -> Option<Seq<char>> {
    match v {
        Some(x) => if x.len() >= 3 {
            Some(x.skip(3))
        } else {
            None
        },
        None => None,
    }
}

/// The version that the header property names: 1, 2, or 0 for none known.
pub open spec fn sms_version(p: Seq<(Seq<char>, Seq<char>)>) -> int {
    match lookup(p, header_key()) {
        Some(v) => if v == seq!['1'] {
            1
        } else if v == seq!['2'] {
            2
        } else {
            0
        },
        None => 0,
    }
}

/// `r` is what the version 1 grammar makes of the properties `p` of a text
/// of `byte_len` bytes.
pub open spec fn is_v1(r: SmsData, p: Seq<(Seq<char>, Seq<char>)>, byte_len: int) -> bool {
    &&& text_opt(r.header) == lookup(p, header_key())
    &&& r.emergency_number is None
    &&& r.beginning_of_call is None
    &&& float_opt(r.longitude) == float_value(lookup(p, seq!['l', 'g']))
    &&& float_opt(r.latitude) == float_value(lookup(p, seq!['l', 't']))
    &&& float_opt(r.accuracy) == float_value(lookup(p, seq!['r', 'd']))
    &&& millis_of(r.time_of_positioning) == match lookup(p, seq!['t', 'o', 'p']) {
        Some(x) => naive_utc_millis(x, DATETIME_FORMAT@),
        None => None,
    }
    &&& float_opt(r.level_of_confidence) == float_value(lookup(p, seq!['l', 'c']))
    &&& r.altitude is None
    &&& r.vertical_accuracy is None
    &&& text_opt(r.positioning_method) == method_value(lookup(p, seq!['p', 'm']), false)
    &&& text_opt(r.imsi) == lookup(p, seq!['s', 'i'])
    &&& text_opt(r.imei) == lookup(p, seq!['e', 'i'])
    &&& usize_opt(r.network_mcc) == usize_value(lookup(p, seq!['m', 'c', 'c']))
    &&& usize_opt(r.network_mnc) == usize_value(lookup(p, seq!['m', 'n', 'c']))
    &&& r.home_mcc is None
    &&& r.home_mnc is None
    &&& r.languages is None
    &&& usize_opt(r.message_length) == usize_value(lookup(p, seq!['m', 'l']))
    &&& r.is_validated == (r.message_length is Some && r.message_length->0 == byte_len)
}

/// `r` is what the version 2 grammar makes of the properties `p`.
pub open spec fn is_v2(r: SmsData, p: Seq<(Seq<char>, Seq<char>)>) -> bool {
    let et = i64_value(lookup(p, seq!['e', 't']));
    let lt = i64_value(lookup(p, seq!['l', 't']));
    let lo = lookup(p, seq!['l', 'o']);
    let lz = lookup(p, seq!['l', 'z']);
    &&& text_opt(r.header) == lookup(p, header_key())
    &&& text_opt(r.emergency_number) == lookup(p, seq!['e', 'n'])
    &&& millis_of(r.beginning_of_call) == match et {
        Some(e) => instant_of_seconds(e),
        None => None,
    }
    &&& millis_of(r.time_of_positioning) == match (et, lt) {
        (Some(e), Some(l)) => instant_of_seconds(e + l),
        _ => None,
    }
    &&& float_opt(r.latitude) == float_value(part(lo, 0))
    &&& float_opt(r.longitude) == float_value(part(lo, 1))
    &&& float_opt(r.accuracy) == float_value(part(lo, 2))
    &&& float_opt(r.level_of_confidence) == float_value(lookup(p, seq!['l', 'c']))
    &&& float_opt(r.altitude) == float_value(part(lz, 0))
    &&& float_opt(r.vertical_accuracy) == float_value(part(lz, 1))
    &&& text_opt(r.positioning_method) == method_value(lookup(p, seq!['l', 's']), true)
    &&& r.imsi is None
    &&& text_opt(r.imei) == lookup(p, seq!['e', 'i'])
    &&& usize_opt(r.network_mcc) == usize_value(code_head(lookup(p, seq!['n', 'c'])))
    &&& usize_opt(r.network_mnc) == usize_value(code_rest(lookup(p, seq!['n', 'c'])))
    &&& usize_opt(r.home_mcc) == usize_value(code_head(lookup(p, seq!['h', 'c'])))
    &&& usize_opt(r.home_mnc) == usize_value(code_rest(lookup(p, seq!['h', 'c'])))
    &&& text_opt(r.languages) == lookup(p, seq!['l', 'g'])
    &&& r.message_length is None
    &&& r.is_validated
}

/// `r` is what decoding an SMS text with characters `s` and `byte_len`
/// bytes gives.
pub open spec fn sms_result(r: Result<SmsData, AmlError>, s: Seq<char>, byte_len: int) -> bool {
    let p = properties(s);
    if sms_version(p) == 1 {
        r is Ok && is_v1(r->Ok_0, p, byte_len)
    } else if sms_version(p) == 2 {
        r is Ok && is_v2(r->Ok_0, p)
    } else {
        r == Err::<SmsData, AmlError>(AmlError::UnimplementedVersion)
    }
}

/// A string of the characters of ASCII bytes has one byte per character.
proof fn lemma_ascii_len(s: &str, b: Seq<u8>)
    requires
        s@ == ascii_chars(b),
        forall|i: int| 0 <= i < b.len() ==> #[trigger] b[i] < 0x80,
        b.len() <= usize::MAX,
    ensures
        s.len() == b.len(),
{
    assert(is_ascii(s)) by {
        assert forall|i: int| 0 <= i < s@.len() implies '\0' <= #[trigger] s@[i] <= '\u{7f}' by {
            assert(b[i] < 0x80);
        }
    }
    assert(s.spec_bytes().len() == s@.len());
}

/// An SMS text with its properties.
struct Message<'a> {
    text: &'a str,
    chars: Vec<char>,
    fields: Vec<Field>,
}

impl<'a> Message<'a> {
    spec fn wf(&self) -> bool {
        self.chars@ == self.text@ && fields_in(self.chars@, self.fields@)
    }

    spec fn pairs(&self) -> Seq<(Seq<char>, Seq<char>)> {
        fields_view(self.chars@, self.fields@)
    }

    fn new(text: &'a str) -> (r: Message<'a>)
        ensures
            r.wf(),
            r.text == text,
            r.pairs() == properties(text@),
    {
        let chars = chars_of(text);
        let fields = get_properties(&chars);
        Message { text, chars, fields }
    }

    fn range(&self, key: &str) -> (r: Option<(usize, usize)>)
        requires
            self.wf(),
        ensures
            match r {
                Some((a, b)) => a <= b <= self.chars@.len() && lookup(self.pairs(), key@) == Some(
                    self.chars@.subrange(a as int, b as int),
                ),
                None => lookup(self.pairs(), key@) is None,
            },
    {
        find_value(&self.chars, &self.fields, key)
    }

    fn text_of(&self, key: &str) -> (r: Option<String>)
        requires
            self.wf(),
        ensures
            text_opt(r) == lookup(self.pairs(), key@),
    {
        match self.range(key) {
            Some((a, b)) => Some(string_of(self.text, a, b)),
            None => None,
        }
    }

    fn float_of(&self, key: &str) -> (r: Option<FloatText>)
        requires
            self.wf(),
        ensures
            float_opt(r) == float_value(lookup(self.pairs(), key@)),
    {
        match self.range(key) {
            Some((a, b)) => FloatText::parse(self.text.substring_char(a, b)),
            None => None,
        }
    }

    fn usize_of(&self, key: &str) -> (r: Option<usize>)
        requires
            self.wf(),
        ensures
            usize_opt(r) == usize_value(lookup(self.pairs(), key@)),
    {
        match self.range(key) {
            Some((a, b)) => parse_usize(&self.chars, a, b),
            None => None,
        }
    }

    fn i64_of(&self, key: &str) -> (r: Option<i64>)
        requires
            self.wf(),
        ensures
            r is Some <==> i64_value(lookup(self.pairs(), key@)) is Some,
            r is Some ==> r->0 == i64_value(lookup(self.pairs(), key@))->0,
    {
        match self.range(key) {
            Some((a, b)) => parse_i64(&self.chars, a, b),
            None => None,
        }
    }

    fn method_of(&self, key: &str, fused: bool) -> (r: Option<String>)
        requires
            self.wf(),
        ensures
            text_opt(r) == method_value(lookup(self.pairs(), key@), fused),
    {
        match self.range(key) {
            Some((a, b)) => {
                let upper = uppercase(self.text.substring_char(a, b));
                SmsData::positioning_code(upper.as_str(), fused)
            },
            None => None,
        }
    }

    /// Pieces `0..n` of the comma-separated value of `key`, each read as a float.
    fn floats_of(&self, key: &str, n: usize) -> (r: Vec<Option<FloatText>>)
        requires
            self.wf(),
        ensures
            r@.len() == n,
            forall|i: int|
                0 <= i < n ==> float_opt(#[trigger] r@[i]) == float_value(
                    part(lookup(self.pairs(), key@), i),
                ),
    {
        let mut out: Vec<Option<FloatText>> = Vec::new();
        match self.range(key) {
            Some((a, b)) => {
                let pieces = split_range(&self.chars, a, b, ',');
                let mut i: usize = 0;
                while i < n
                    invariant
                        self.wf(),
                        i <= n,
                        out@.len() == i,
                        a <= b <= self.chars@.len(),
                        lookup(self.pairs(), key@) == Some(self.chars@.subrange(a as int, b as int)),
                        pieces@.len() == split_on(self.chars@.subrange(a as int, b as int), ',').len(),
                        forall|j: int|
                            0 <= j < pieces@.len() ==> (#[trigger] pieces@[j]).0 <= pieces@[j].1
                                <= self.chars@.len() && self.chars@.subrange(
                                pieces@[j].0 as int,
                                pieces@[j].1 as int,
                            ) == split_on(self.chars@.subrange(a as int, b as int), ',')[j],
                        forall|j: int|
                            0 <= j < i ==> float_opt(#[trigger] out@[j]) == float_value(
                                part(lookup(self.pairs(), key@), j),
                            ),
                    decreases n - i,
                {
                    if i < pieces.len() {
                        let (c, d) = pieces[i];
                        out.push(FloatText::parse(self.text.substring_char(c, d)));
                    } else {
                        out.push(None);
                    }
                    i = i + 1;
                }
            },
            None => {
                let mut i: usize = 0;
                while i < n
                    invariant
                        i <= n,
                        out@.len() == i,
                        lookup(self.pairs(), key@) is None,
                        forall|j: int| 0 <= j < i ==> (#[trigger] out@[j]) is None,
                    decreases n - i,
                {
                    out.push(None);
                    i = i + 1;
                }
            },
        }
        out
    }

    /// The country and network codes of a network-code value.
    fn codes_of(&self, key: &str) -> (r: (Option<usize>, Option<usize>))
        requires
            self.wf(),
        ensures
            usize_opt(r.0) == usize_value(code_head(lookup(self.pairs(), key@))),
            usize_opt(r.1) == usize_value(code_rest(lookup(self.pairs(), key@))),
    {
        match self.range(key) {
            Some((a, b)) => {
                if b - a >= 3 {
                    let ghost v = self.chars@.subrange(a as int, b as int);
                    assert(v.take(3) == self.chars@.subrange(a as int, a + 3));
                    assert(v.skip(3) == self.chars@.subrange(a + 3, b as int));
                    (parse_usize(&self.chars, a, a + 3), parse_usize(&self.chars, a + 3, b))
                } else {
                    (None, None)
                }
            },
            None => (None, None),
        }
    }
}

} // verus!

verus! {

impl VersionedSms {
    /// The version 1 record of the properties of a text of `byte_len` bytes.
    fn from_text_v1(msg: &Message, byte_len: usize) -> (r: SmsDataV1)
        requires
            msg.wf(),
        ensures
            is_v1(flat_v1(r), msg.pairs(), byte_len as int),
    {
        proof {
            reveal_strlit("A\"ML");
            reveal_strlit("lg");
            reveal_strlit("lt");
            reveal_strlit("rd");
            reveal_strlit("top");
            reveal_strlit("lc");
            reveal_strlit("pm");
            reveal_strlit("si");
            reveal_strlit("ei");
            reveal_strlit("mcc");
            reveal_strlit("mnc");
            reveal_strlit("ml");
            assert("A\"ML"@ == header_key());
            assert("lg"@ == seq!['l', 'g']);
            assert("lt"@ == seq!['l', 't']);
            assert("rd"@ == seq!['r', 'd']);
            assert("top"@ == seq!['t', 'o', 'p']);
            assert("lc"@ == seq!['l', 'c']);
            assert("pm"@ == seq!['p', 'm']);
            assert("si"@ == seq!['s', 'i']);
            assert("ei"@ == seq!['e', 'i']);
            assert("mcc"@ == seq!['m', 'c', 'c']);
            assert("mnc"@ == seq!['m', 'n', 'c']);
            assert("ml"@ == seq!['m', 'l']);
        }
        let time_of_positioning = match msg.range("top") {
            Some((a, b)) => parse_naive_utc(msg.text.substring_char(a, b), DATETIME_FORMAT),
            None => None,
        };
        let message_length = msg.usize_of("ml");
        let is_validated = match message_length {
            Some(len) => len == byte_len,
            None => false,
        };
        SmsDataV1 {
            header: msg.text_of("A\"ML"),
            latitude: msg.float_of("lt"),
            longitude: msg.float_of("lg"),
            radius: msg.float_of("rd"),
            time_of_positioning,
            level_of_confidence: msg.float_of("lc"),
            positioning_method: msg.method_of("pm", false),
            imsi: msg.text_of("si"),
            imei: msg.text_of("ei"),
            network_mcc: msg.usize_of("mcc"),
            network_mnc: msg.usize_of("mnc"),
            message_length,
            is_validated,
        }
    }

    /// The version 2 record of the properties of a text.
    fn from_text_v2(msg: &Message) -> (r: SmsDataV2)
        requires
            msg.wf(),
        ensures
            is_v2(flat_v2(r), msg.pairs()),
    {
        proof {
            reveal_strlit("A\"ML");
            reveal_strlit("en");
            reveal_strlit("et");
            reveal_strlit("lt");
            reveal_strlit("lo");
            reveal_strlit("lz");
            reveal_strlit("lc");
            reveal_strlit("ls");
            reveal_strlit("ei");
            reveal_strlit("nc");
            reveal_strlit("hc");
            reveal_strlit("lg");
            assert("A\"ML"@ == header_key());
            assert("en"@ == seq!['e', 'n']);
            assert("et"@ == seq!['e', 't']);
            assert("lt"@ == seq!['l', 't']);
            assert("lo"@ == seq!['l', 'o']);
            assert("lz"@ == seq!['l', 'z']);
            assert("lc"@ == seq!['l', 'c']);
            assert("ls"@ == seq!['l', 's']);
            assert("ei"@ == seq!['e', 'i']);
            assert("nc"@ == seq!['n', 'c']);
            assert("hc"@ == seq!['h', 'c']);
            assert("lg"@ == seq!['l', 'g']);
        }
        let et = msg.i64_of("et");
        let lt = msg.i64_of("lt");
        let mut beginning_of_call: Option<Timestamp> = None;
        let mut time_of_positioning: Option<Timestamp> = None;
        if let Some(e) = et {
            beginning_of_call = utc_from_seconds(e);
            if let Some(l) = lt {
                time_of_positioning = match e.checked_add(l) {
                    Some(sum) => utc_from_seconds(sum),
                    None => None,
                };
            }
        }
        let mut location = msg.floats_of("lo", 3);
        let mut vertical = msg.floats_of("lz", 2);
        let accuracy = location.pop().unwrap();
        let longitude = location.pop().unwrap();
        let latitude = location.pop().unwrap();
        let vertical_accuracy = vertical.pop().unwrap();
        let altitude = vertical.pop().unwrap();
        let (network_mcc, network_mnc) = msg.codes_of("nc");
        let (home_mcc, home_mnc) = msg.codes_of("hc");
        SmsDataV2 {
            header: msg.text_of("A\"ML"),
            emergency_number: msg.text_of("en"),
            beginning_of_call,
            latitude,
            longitude,
            accuracy,
            time_of_positioning,
            level_of_confidence: msg.float_of("lc"),
            altitude,
            vertical_accuracy,
            positioning_method: msg.method_of("ls", true),
            imei: msg.text_of("ei"),
            network_mcc,
            network_mnc,
            home_mcc,
            home_mnc,
            language: msg.text_of("lg"),
        }
    }

    /// Decodes an SMS text into the record of its version. The header
    /// property `A"ML` picks the grammar: `1` or `2`; any other value, or
    /// none, is an unimplemented version.
    pub fn from_text(text_sms: &str) -> (r: Result<VersionedSms, AmlError>)
        ensures
            match r {
                Ok(v) => sms_result(Ok(flat(v)), text_sms@, text_sms.len() as int),
                Err(e) => sms_result(Err(e), text_sms@, text_sms.len() as int),
            },
    {
        let msg = Message::new(text_sms);
        proof {
            reveal_strlit("A\"ML");
            reveal_strlit("1");
            reveal_strlit("2");
            assert("A\"ML"@ == header_key());
            assert("1"@ == seq!['1']);
            assert("2"@ == seq!['2']);
        }
        match msg.range("A\"ML") {
            Some((a, b)) => {
                if range_is(&msg.chars, a, b, "1") {
                    Ok(VersionedSms::V1(Self::from_text_v1(&msg, text_sms.len())))
                } else if range_is(&msg.chars, a, b, "2") {
                    Ok(VersionedSms::V2(Self::from_text_v2(&msg)))
                } else {
                    Err(AmlError::UnimplementedVersion)
                }
            },
            None => Err(AmlError::UnimplementedVersion),
        }
    }

}

/// The unit emitted for input byte `i` of a 7-bit packed stream: the bits of
/// byte `i` shifted by its offset in the group of seven, joined with the bits
/// carried over from byte `i - 1`, masked to seven bits.
pub open spec fn septet_at(b: Seq<u8>, i: int) -> u8 {
    let k = i % 7;
    let carry: u8 = if k == 0 { 0 } else { b[i - 1] >> ((8 - k) as u8) };
    ((b[i] << (k as u8)) | carry) & 0x7f
}

/// The units unpacked from a 7-bit packed byte stream: one per input byte,
/// and after every seventh byte the unit that its top seven bits complete.
pub open spec fn septets_of(b: Seq<u8>) -> Seq<u8>
    decreases b.len(),
{
    if b.len() == 0 {
        Seq::empty()
    } else {
        let i = b.len() - 1;
        let prev = septets_of(b.drop_last()).push(septet_at(b, i));
        if i % 7 == 6 {
            prev.push(b[i] >> 1)
        } else {
            prev
        }
    }
}

/// The unpacked stream has one unit per input byte and one more per full
/// group of seven bytes, each below 0x80.
pub proof fn lemma_septets_shape(b: Seq<u8>)
    ensures
        septets_of(b).len() == b.len() + b.len() / 7,
        forall|j: int| 0 <= j < septets_of(b).len() ==> #[trigger] septets_of(b)[j] < 0x80,
    decreases b.len(),
{
    if b.len() > 0 {
        lemma_septets_shape(b.drop_last());
        let i = b.len() - 1;
        let x = b[i];
        let c: u8 = if i % 7 == 0 { 0 } else { b[i - 1] >> ((8 - i % 7) as u8) };
        let k = (i % 7) as u8;
        assert(((x << k) | c) & 0x7f < 0x80) by (bit_vector);
        assert(x >> 1u8 < 0x80) by (bit_vector);
    }
}

impl SmsData {
    /// The positioning-method code of an upper-cased value: kept where it is
    /// one of `G`, `W`, `C`, `U`, or `F` where `fused` allows it.
    pub fn positioning_code(upper: &str, fused: bool) -> (r: Option<String>)
        ensures
            text_opt(r) == method_code(upper@, fused),
    {
        let cs = chars_of(upper);
        let n = cs.len();
        assert(cs@.subrange(0, n as int) == upper@);
        proof {
            reveal_strlit("G");
            reveal_strlit("W");
            reveal_strlit("C");
            reveal_strlit("U");
            reveal_strlit("F");
            assert("G"@ == seq!['G']);
            assert("W"@ == seq!['W']);
            assert("C"@ == seq!['C']);
            assert("U"@ == seq!['U']);
            assert("F"@ == seq!['F']);
        }
        if range_is(&cs, 0, n, "G") || range_is(&cs, 0, n, "W") || range_is(&cs, 0, n, "C")
            || range_is(&cs, 0, n, "U") || (fused && range_is(&cs, 0, n, "F")) {
            Some(String::from_str(upper))
        } else {
            None
        }
    }

    /// The flat record of a versioned one.
    pub fn from_versioned(v: VersionedSms) -> (r: SmsData)
        ensures
            r == flat(v),
    {
        match v {
            VersionedSms::V1(d) => SmsData {
                header: d.header,
                emergency_number: None,
                beginning_of_call: None,
                latitude: d.latitude,
                longitude: d.longitude,
                accuracy: d.radius,
                time_of_positioning: d.time_of_positioning,
                level_of_confidence: d.level_of_confidence,
                altitude: None,
                vertical_accuracy: None,
                positioning_method: d.positioning_method,
                imsi: d.imsi,
                imei: d.imei,
                network_mcc: d.network_mcc,
                network_mnc: d.network_mnc,
                home_mcc: None,
                home_mnc: None,
                languages: None,
                message_length: d.message_length,
                is_validated: d.is_validated,
            },
            VersionedSms::V2(d) => SmsData {
                header: d.header,
                emergency_number: d.emergency_number,
                beginning_of_call: d.beginning_of_call,
                latitude: d.latitude,
                longitude: d.longitude,
                accuracy: d.accuracy,
                time_of_positioning: d.time_of_positioning,
                level_of_confidence: d.level_of_confidence,
                altitude: d.altitude,
                vertical_accuracy: d.vertical_accuracy,
                positioning_method: d.positioning_method,
                imsi: None,
                imei: d.imei,
                network_mcc: d.network_mcc,
                network_mnc: d.network_mnc,
                home_mcc: d.home_mcc,
                home_mnc: d.home_mnc,
                languages: d.language,
                message_length: None,
                is_validated: true,
            },
        }
    }

    /// Decodes an SMS text. The header property `A"ML` picks the grammar:
    /// `1` or `2`; any other value, or none, is an unimplemented version.
    pub fn from_text(text_sms: &str) -> (r: Result<SmsData, AmlError>)
        ensures
            sms_result(r, text_sms@, text_sms.len() as int),
    {
        match VersionedSms::from_text(text_sms) {
            Ok(v) => Ok(Self::from_versioned(v)),
            Err(e) => Err(e),
        }
    }

    /// Decodes a binary SMS: unpacks its 7-bit units and decodes them as text.
    pub fn from_data(bin_sms: &[u8]) -> (r: Result<SmsData, AmlError>)
        ensures
            sms_result(r, ascii_chars(septets_of(bin_sms@)), septets_of(bin_sms@).len() as int),
    {
        let raw = Self::decode_7to8(bin_sms);
        let ghost units = raw@;
        let units_len = raw.len();
        let text = ascii_string(raw);
        let s = text.as_str();
        proof {
            lemma_ascii_len(s, units);
        }
        Self::from_text(s)
    }

    /// Unpacks a GSM 7-bit packed byte stream into one byte per unit.
    pub fn decode_7to8(raw_bytes: &[u8]) -> (r: Vec<u8>)
        ensures
            r@ == septets_of(raw_bytes@),
            r@.len() == raw_bytes@.len() + raw_bytes@.len() / 7,
            forall|j: int| 0 <= j < r@.len() ==> #[trigger] r@[j] < 0x80,
    {
        let mut bits_len: u8 = 0;
        let mut bits: u8 = 0;
        let mut out: Vec<u8> = Vec::new();
        let n = raw_bytes.len();
        let mut i: usize = 0;
        while i < n
            invariant
                n == raw_bytes@.len(),
                i <= n,
                bits_len as int == i % 7,
                bits == (if i % 7 == 0 { 0u8 } else { raw_bytes@[i - 1] >> ((8 - i % 7) as u8) }),
                out@ == septets_of(raw_bytes@.take(i as int)),
            decreases n - i,
        {
            let byte = raw_bytes[i];
            let ghost b = raw_bytes@.take(i + 1);
            assert(b.drop_last() == raw_bytes@.take(i as int));
            out.push(((byte << bits_len) | bits) & 0x7F);
            let shift: u8 = 7 - bits_len;
            bits = byte >> shift;
            assert(byte >> shift == byte >> ((8 - (bits_len + 1)) as u8));
            bits_len = bits_len + 1;
            if bits_len == 7 {
                out.push(bits);
                bits = 0;
                bits_len = 0;
            }
            i = i + 1;
        }
        assert(raw_bytes@.take(n as int) == raw_bytes@);
        proof {
            lemma_septets_shape(raw_bytes@);
        }
        out
    }
}

} // verus!
