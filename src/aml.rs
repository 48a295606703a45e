use vstd::prelude::*;
use vstd::string::*;
use crate::AmlError;
use crate::fields::text_opt;
use crate::https::{form_decoded, is_https, HttpsData};
use crate::number::FloatText;
use crate::sms::{septets_of, sms_result, SmsData};
use crate::text::ascii_chars;
use crate::time::Timestamp;

verus! {

broadcast use vstd::string::group_string_axioms;

/// The bytes that base64's `decode` reads from `b`, where it reads any.
pub uninterp spec fn base64_decoded(b: Seq<u8>) -> Option<Seq<u8>>;

/// Relies on base64's `decode` (standard alphabet, padded): the bytes, or an
/// error, depend on the input alone. It panics only where the input length
/// plus 3, or plus 7, overflows.
#[verifier::external_body]
fn decode_base64(b: &[u8]) -> (r: Option<Vec<u8>>)
    requires
        b@.len() + 7 <= usize::MAX,
    ensures
        match r {
            Some(v) => base64_decoded(b@) == Some(v@),
            None => base64_decoded(b@) is None,
        },
{
    match base64::decode(b) {
        Ok(v) => Some(v),
        Err(_) => None,
    }
}

/// A location record in one shape, whatever transport it came by.
#[derive(Debug)]
pub struct AmlData {
    /// The version of AML.
    pub version: Option<String>,
    /// The emergency number dialed.
    pub emergency_number: Option<String>,
    /// The source of activation (HTTPS only).
    pub source_of_activation: Option<String>,
    /// The beginning of the call.
    pub beginning_of_call: Option<Timestamp>,
    /// The WGS84 latitude in degrees.
    pub latitude: Option<FloatText>,
    /// The WGS84 longitude in degrees.
    pub longitude: Option<FloatText>,
    /// When the handset determined its location.
    pub time_of_positioning: Option<Timestamp>,
    /// Vertical location in metres.
    pub altitude: Option<FloatText>,
    /// Floor label (HTTPS only).
    pub floor: Option<FloatText>,
    /// How the location was found: `gps`, `wifi`, `cell`, `unknown` or `fused`.
    pub positioning_method: Option<String>,
    /// Accuracy of the location in metres.
    pub accuracy: Option<FloatText>,
    /// Vertical accuracy in metres.
    pub vertical_accuracy: Option<FloatText>,
    /// Confidence in the location.
    pub confidence: Option<FloatText>,
    /// Bearing in degrees (HTTPS only).
    pub bearing: Option<FloatText>,
    /// Speed in metres per second (HTTPS only).
    pub speed: Option<FloatText>,
    /// The phone number of the device (HTTPS only).
    pub device_number: Option<String>,
    /// The model of the device (HTTPS only).
    pub model: Option<String>,
    /// The identifier of the SIM card.
    pub imsi: Option<String>,
    /// The identifier of the handset.
    pub imei: Option<String>,
    /// Integrated Circuit Card Identification number (HTTPS only).
    pub iccid: Option<String>,
    /// Home Mobile Country Code, in decimal.
    pub home_mcc: Option<String>,
    /// Home Mobile Network Code, in decimal.
    pub home_mnc: Option<String>,
    /// Mobile Country Code of the network, in decimal.
    pub network_mcc: Option<String>,
    /// Mobile Network Code of the network, in decimal.
    pub network_mnc: Option<String>,
    /// Language tags.
    pub language: Option<String>,
    /// Where the location comes from: `sms` or `https`.
    pub transport: String,
}

pub open spec fn digit_char(d: nat) -> char {
    (d + 48) as u8 as char
}

/// The decimal digits of `n`.
pub open spec fn digits_text(n: nat) -> Seq<char>
    decreases n,
{
    if n < 10 {
        seq![digit_char(n)]
    } else {
        digits_text(n / 10).push(digit_char(n % 10))
    }
}

/// `n` in decimal, with a `-` where it is negative.
pub open spec fn int_text(n: int) -> Seq<char> {
    if n < 0 {
        seq!['-'] + digits_text((-n) as nat)
    } else {
        digits_text(n as nat)
    }
}

pub open spec fn int_text_opt(o: Option<int>) -> Option<Seq<char>> {
    match o {
        Some(n) => Some(int_text(n)),
        None => None,
    }
}

pub open spec fn usize_int(o: Option<usize>) -> Option<int> {
    match o {
        Some(n) => Some(n as int),
        None => None,
    }
}

pub open spec fn i32_int(o: Option<i32>) -> Option<int> {
    match o {
        Some(n) => Some(n as int),
        None => None,
    }
}

/// The word of an SMS positioning-method code.
pub open spec fn method_word(c: Option<Seq<char>>) -> Option<Seq<char>> {
    match c {
        Some(x) => if x == seq!['G'] {
            Some(seq!['g', 'p', 's'])
        } else if x == seq!['W'] {
            Some(seq!['w', 'i', 'f', 'i'])
        } else if x == seq!['C'] {
            Some(seq!['c', 'e', 'l', 'l'])
        } else if x == seq!['U'] {
            Some(seq!['u', 'n', 'k', 'n', 'o', 'w', 'n'])
        } else if x == seq!['F'] {
            Some(seq!['f', 'u', 's', 'e', 'd'])
        } else {
            None
        },
        None => None,
    }
}

/// `r` is the canonical record of the SMS record `s`.
pub open spec fn is_from_sms(r: AmlData, s: SmsData) -> bool {
    &&& r.version == s.header
    &&& r.emergency_number == s.emergency_number
    &&& r.source_of_activation is None
    &&& r.beginning_of_call == s.beginning_of_call
    &&& r.latitude == s.latitude
    &&& r.longitude == s.longitude
    &&& r.time_of_positioning == s.time_of_positioning
    &&& r.altitude == s.altitude
    &&& r.floor is None
    &&& text_opt(r.positioning_method) == method_word(text_opt(s.positioning_method))
    &&& r.accuracy == s.accuracy
    &&& r.vertical_accuracy == s.vertical_accuracy
    &&& r.confidence == s.level_of_confidence
    &&& r.bearing is None
    &&& r.speed is None
    &&& r.device_number is None
    &&& r.model is None
    &&& r.imsi == s.imsi
    &&& r.imei == s.imei
    &&& r.iccid is None
    &&& text_opt(r.home_mcc) == int_text_opt(usize_int(s.home_mcc))
    &&& text_opt(r.home_mnc) == int_text_opt(usize_int(s.home_mnc))
    &&& text_opt(r.network_mcc) == int_text_opt(usize_int(s.network_mcc))
    &&& text_opt(r.network_mnc) == int_text_opt(usize_int(s.network_mnc))
    &&& r.language == s.languages
    &&& r.transport@ == seq!['s', 'm', 's']
}

/// `r` is the canonical record of the HTTPS record `h`.
pub open spec fn is_from_https(r: AmlData, h: HttpsData) -> bool {
    &&& r.version == h.v
    &&& r.emergency_number == h.emergency_number
    &&& r.source_of_activation == h.source
    &&& r.beginning_of_call == h.time
    &&& r.latitude == h.location_latitude
    &&& r.longitude == h.location_longitude
    &&& r.time_of_positioning == h.location_time
    &&& r.altitude == h.location_altitude
    &&& r.floor == h.location_floor
    &&& r.positioning_method == h.location_source
    &&& r.accuracy == h.location_accuracy
    &&& r.vertical_accuracy == h.location_vertical_accuracy
    &&& r.confidence == h.location_confidence
    &&& r.bearing == h.location_bearing
    &&& r.speed == h.location_speed
    &&& r.device_number == h.device_number
    &&& r.model == h.device_model
    &&& r.imsi == h.device_imsi
    &&& r.imei == h.device_imei
    &&& r.iccid == h.device_iccid
    &&& text_opt(r.home_mcc) == int_text_opt(i32_int(h.cell_home_mcc))
    &&& text_opt(r.home_mnc) == int_text_opt(i32_int(h.cell_home_mnc))
    &&& text_opt(r.network_mcc) == int_text_opt(i32_int(h.cell_network_mcc))
    &&& text_opt(r.network_mnc) == int_text_opt(i32_int(h.cell_network_mnc))
    &&& r.language == h.device_languages
    &&& r.transport@ == seq!['h', 't', 't', 'p', 's']
}

/// `r` is the canonical record of what decoding the SMS text `s` of
/// `byte_len` bytes gives, or its error.
pub open spec fn aml_sms_result(r: Result<AmlData, AmlError>, s: Seq<char>, byte_len: int) -> bool {
    match r {
        Ok(a) => exists|d: SmsData| #[trigger] sms_result(Ok(d), s, byte_len) && is_from_sms(a, d),
        Err(e) => sms_result(Err(e), s, byte_len),
    }
}

fn digit_str(d: u8) -> (r: &'static str)
    requires
        d < 10,
    ensures
        r@ == seq![digit_char(d as nat)],
{
    proof {
        reveal_strlit("0");
        reveal_strlit("1");
        reveal_strlit("2");
        reveal_strlit("3");
        reveal_strlit("4");
        reveal_strlit("5");
        reveal_strlit("6");
        reveal_strlit("7");
        reveal_strlit("8");
        reveal_strlit("9");
    }
    let r = match d {
        0 => "0",
        1 => "1",
        2 => "2",
        3 => "3",
        4 => "4",
        5 => "5",
        6 => "6",
        7 => "7",
        8 => "8",
        _ => "9",
    };
    assert(r@ =~= seq![digit_char(d as nat)]);
    r
}

/// The magnitude `m` written in decimal, after a `-` where `negative`.
pub fn decimal_text(negative: bool, m: u64) -> (r: String)
    ensures
        r@ == (if negative {
            seq!['-'] + digits_text(m as nat)
        } else {
            digits_text(m as nat)
        }),
{
    let ghost whole = m as nat;
    let mut m = m;
    let ghost mut rest: Seq<char> = Seq::empty();
    let mut ds: Vec<u8> = Vec::new();
    while m >= 10
        invariant
            digits_text(whole) == digits_text(m as nat) + rest,
            rest.len() == ds@.len(),
            forall|k: int| 0 <= k < ds@.len() ==> #[trigger] ds@[k] < 10,
            forall|k: int|
                0 <= k < rest.len() ==> #[trigger] rest[k] == digit_char(
                    ds@[ds@.len() - 1 - k] as nat,
                ),
        decreases m,
    {
        let d = (m % 10) as u8;
        let ghost old_rest = rest;
        let ghost old_ds = ds@;
        proof {
            assert(digits_text(m as nat) == digits_text((m / 10) as nat).push(digit_char(d as nat)));
            assert(digits_text(m as nat) + rest =~= digits_text((m / 10) as nat) + (seq![
                digit_char(d as nat),
            ] + rest));
            rest = seq![digit_char(d as nat)] + rest;
        }
        ds.push(d);
        proof {
            assert forall|k: int| 0 <= k < rest.len() implies #[trigger] rest[k] == digit_char(
                ds@[ds@.len() - 1 - k] as nat,
            ) by {
                if k > 0 {
                    assert(rest[k] == old_rest[k - 1]);
                    assert(ds@[ds@.len() - 1 - k] == old_ds[old_ds.len() - 1 - (k - 1)]);
                }
            }
        }
        m = m / 10;
    }
    let mut s = if negative {
        String::from_str("-")
    } else {
        String::new()
    };
    proof {
        reveal_strlit("-");
    }
    let ghost start = s@;
    assert(start =~= (if negative { seq!['-'] } else { Seq::<char>::empty() }));
    s.append(digit_str(m as u8));
    let ghost head = seq![digit_char(m as nat)];
    assert(digits_text(m as nat) == head);
    let mut k = ds.len();
    assert(rest.take(0) =~= Seq::<char>::empty());
    while k > 0
        invariant
            k <= ds@.len(),
            rest.len() == ds@.len(),
            forall|j: int| 0 <= j < ds@.len() ==> #[trigger] ds@[j] < 10,
            forall|j: int|
                0 <= j < rest.len() ==> #[trigger] rest[j] == digit_char(
                    ds@[ds@.len() - 1 - j] as nat,
                ),
            s@ == start + head + rest.take(ds@.len() - k),
        decreases k,
    {
        let ghost taken = rest.take(ds@.len() - k);
        assert(rest.take(ds@.len() - k + 1) =~= taken.push(rest[ds@.len() - k]));
        assert(ds@[k - 1] < 10);
        s.append(digit_str(ds[k - 1]));
        k = k - 1;
    }
    assert(rest.take(ds@.len() as int) =~= rest);
    assert(s@ =~= start + digits_text(whole));
    s
}

/// An optional count in decimal.
fn usize_text(o: Option<usize>) -> (r: Option<String>)
    ensures
        text_opt(r) == int_text_opt(usize_int(o)),
{
    match o {
        Some(n) => Some(decimal_text(false, n as u64)),
        None => None,
    }
}

/// An optional code in decimal.
fn i32_text(o: Option<i32>) -> (r: Option<String>)
    ensures
        text_opt(r) == int_text_opt(i32_int(o)),
{
    match o {
        Some(n) => {
            if n < 0 {
                Some(decimal_text(true, (-(n as i64)) as u64))
            } else {
                Some(decimal_text(false, n as u64))
            }
        },
        None => None,
    }
}

/// The word of a positioning-method code: `G` gps, `W` wifi, `C` cell,
/// `U` unknown, `F` fused.
fn method_word_of(c: Option<String>) -> (r: Option<String>)
    ensures
        text_opt(r) == method_word(text_opt(c)),
{
    proof {
        reveal_strlit("G");
        reveal_strlit("W");
        reveal_strlit("C");
        reveal_strlit("U");
        reveal_strlit("F");
        reveal_strlit("gps");
        reveal_strlit("wifi");
        reveal_strlit("cell");
        reveal_strlit("unknown");
        reveal_strlit("fused");
        assert("G"@ == seq!['G']);
        assert("W"@ == seq!['W']);
        assert("C"@ == seq!['C']);
        assert("U"@ == seq!['U']);
        assert("F"@ == seq!['F']);
        assert("gps"@ == seq!['g', 'p', 's']);
        assert("wifi"@ == seq!['w', 'i', 'f', 'i']);
        assert("cell"@ == seq!['c', 'e', 'l', 'l']);
        assert("unknown"@ == seq!['u', 'n', 'k', 'n', 'o', 'w', 'n']);
        assert("fused"@ == seq!['f', 'u', 's', 'e', 'd']);
    }
    match c {
        Some(code) => {
            if code == String::from_str("G") {
                Some(String::from_str("gps"))
            } else if code == String::from_str("W") {
                Some(String::from_str("wifi"))
            } else if code == String::from_str("C") {
                Some(String::from_str("cell"))
            } else if code == String::from_str("U") {
                Some(String::from_str("unknown"))
            } else if code == String::from_str("F") {
                Some(String::from_str("fused"))
            } else {
                None
            }
        },
        None => None,
    }
}

impl AmlData {
    /// The canonical record of an SMS record, tagged `sms`.
    pub fn from_sms_data(sms: SmsData) -> (r: AmlData)
        ensures
            is_from_sms(r, sms),
    {
        proof {
            reveal_strlit("sms");
        }
        let transport = String::from_str("sms");
        assert(transport@ =~= seq!['s', 'm', 's']);
        AmlData {
            version: sms.header,
            emergency_number: sms.emergency_number,
            source_of_activation: None,
            beginning_of_call: sms.beginning_of_call,
            latitude: sms.latitude,
            longitude: sms.longitude,
            time_of_positioning: sms.time_of_positioning,
            altitude: sms.altitude,
            floor: None,
            positioning_method: method_word_of(sms.positioning_method),
            accuracy: sms.accuracy,
            vertical_accuracy: sms.vertical_accuracy,
            confidence: sms.level_of_confidence,
            bearing: None,
            speed: None,
            device_number: None,
            model: None,
            imsi: sms.imsi,
            imei: sms.imei,
            iccid: None,
            home_mcc: usize_text(sms.home_mcc),
            home_mnc: usize_text(sms.home_mnc),
            network_mcc: usize_text(sms.network_mcc),
            network_mnc: usize_text(sms.network_mnc),
            language: sms.languages,
            transport,
        }
    }

    /// The canonical record of an HTTPS record, tagged `https`.
    pub fn from_https_data(https_data: HttpsData) -> (r: AmlData)
        ensures
            is_from_https(r, https_data),
    {
        proof {
            reveal_strlit("https");
        }
        let transport = String::from_str("https");
        assert(transport@ =~= seq!['h', 't', 't', 'p', 's']);
        AmlData {
            version: https_data.v,
            emergency_number: https_data.emergency_number,
            source_of_activation: https_data.source,
            beginning_of_call: https_data.time,
            latitude: https_data.location_latitude,
            longitude: https_data.location_longitude,
            time_of_positioning: https_data.location_time,
            altitude: https_data.location_altitude,
            floor: https_data.location_floor,
            positioning_method: https_data.location_source,
            accuracy: https_data.location_accuracy,
            vertical_accuracy: https_data.location_vertical_accuracy,
            confidence: https_data.location_confidence,
            bearing: https_data.location_bearing,
            speed: https_data.location_speed,
            device_number: https_data.device_number,
            model: https_data.device_model,
            imsi: https_data.device_imsi,
            imei: https_data.device_imei,
            iccid: https_data.device_iccid,
            home_mcc: i32_text(https_data.cell_home_mcc),
            home_mnc: i32_text(https_data.cell_home_mnc),
            network_mcc: i32_text(https_data.cell_network_mcc),
            network_mnc: i32_text(https_data.cell_network_mnc),
            language: https_data.device_languages,
            transport,
        }
    }

    /// Decodes an HTTPS form body into the canonical record. It never fails.
    pub fn from_https(payload: &str) -> (r: Result<AmlData, AmlError>)
        ensures
            r is Ok,
            exists|h: HttpsData| #[trigger] is_https(h, form_decoded(payload@)) && is_from_https(r->Ok_0, h),
    {
        let https_data = HttpsData::from_urlencoded(payload);
        let ghost h = https_data;
        let r = Self::from_https_data(https_data);
        assert(is_https(h, form_decoded(payload@)) && is_from_https(r, h));
        Ok(r)
    }

    fn from_sms_result(d: Result<SmsData, AmlError>) -> (r: Result<AmlData, AmlError>)
        ensures
            match r {
                Ok(a) => d is Ok && is_from_sms(a, d->Ok_0),
                Err(e) => d == Err::<SmsData, AmlError>(e),
            },
    {
        match d {
            Ok(sms) => Ok(Self::from_sms_data(sms)),
            Err(e) => Err(e),
        }
    }

    /// Decodes an SMS text into the canonical record.
    pub fn from_text_sms(text_sms: &str) -> (r: Result<AmlData, AmlError>)
        ensures
            aml_sms_result(r, text_sms@, text_sms.len() as int),
    {
        let d = SmsData::from_text(text_sms);
        let ghost dd = d;
        let r = Self::from_sms_result(d);
        proof {
            if r is Ok {
                assert(sms_result(Ok(dd->Ok_0), text_sms@, text_sms.len() as int));
            }
        }
        r
    }

    /// Decodes a 7-bit packed binary SMS into the canonical record.
    pub fn from_data_sms(bin_sms: &[u8]) -> (r: Result<AmlData, AmlError>)
        ensures
            aml_sms_result(r, ascii_chars(septets_of(bin_sms@)), septets_of(bin_sms@).len() as int),
    {
        let d = SmsData::from_data(bin_sms);
        let ghost dd = d;
        let r = Self::from_sms_result(d);
        proof {
            if r is Ok {
                assert(sms_result(
                    Ok(dd->Ok_0),
                    ascii_chars(septets_of(bin_sms@)),
                    septets_of(bin_sms@).len() as int,
                ));
            }
        }
        r
    }

    /// Decodes a base64 encoded 7-bit packed binary SMS into the canonical
    /// record; input that is not base64 is an invalid encoding.
    pub fn from_base64_sms(base64_sms: &[u8]) -> (r: Result<AmlData, AmlError>)
        requires
            base64_sms@.len() + 7 <= usize::MAX,
        ensures
            match base64_decoded(base64_sms@) {
                Some(b) => aml_sms_result(r, ascii_chars(septets_of(b)), septets_of(b).len() as int),
                None => r == Err::<AmlData, AmlError>(AmlError::InvalidBase64),
            },
    {
        match decode_base64(base64_sms) {
            Some(bin_sms) => Self::from_data_sms(bin_sms.as_slice()),
            None => Err(AmlError::InvalidBase64),
        }
    }
}

} // verus!
