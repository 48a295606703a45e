use vstd::prelude::*;
use crate::AmlError;
use crate::fields::properties;
use crate::https::{hmac_only_at, is_authentic, is_https, HttpsData};
use crate::sms::{header_key, is_v1, is_v2, sms_result, sms_version, SmsData};
use crate::text::lookup;

verus! {

/// The names that either SMS grammar reads.
pub open spec fn is_sms_key(k: Seq<char>) -> bool {
    ||| k == header_key()
    ||| k == seq!['l', 'g']
    ||| k == seq!['l', 't']
    ||| k == seq!['r', 'd']
    ||| k == seq!['t', 'o', 'p']
    ||| k == seq!['l', 'c']
    ||| k == seq!['p', 'm']
    ||| k == seq!['s', 'i']
    ||| k == seq!['e', 'i']
    ||| k == seq!['m', 'c', 'c']
    ||| k == seq!['m', 'n', 'c']
    ||| k == seq!['m', 'l']
    ||| k == seq!['e', 'n']
    ||| k == seq!['e', 't']
    ||| k == seq!['l', 'o']
    ||| k == seq!['l', 'z']
    ||| k == seq!['l', 's']
    ||| k == seq!['n', 'c']
    ||| k == seq!['h', 'c']
}

/// The names that the HTTPS form grammar reads.
pub open spec fn is_form_key(k: Seq<char>) -> bool {
    ||| k == "v"@
    ||| k == "emergency_number"@
    ||| k == "source"@
    ||| k == "thunderbird_version"@
    ||| k == "time"@
    ||| k == "gt_location_latitude"@
    ||| k == "gt_location_longitude"@
    ||| k == "location_latitude"@
    ||| k == "location_longitude"@
    ||| k == "location_time"@
    ||| k == "location_altitude"@
    ||| k == "location_floor"@
    ||| k == "location_source"@
    ||| k == "location_accuracy"@
    ||| k == "location_vertical_accuracy"@
    ||| k == "location_confidence"@
    ||| k == "location_bearing"@
    ||| k == "location_speed"@
    ||| k == "device_number"@
    ||| k == "device_model"@
    ||| k == "device_imsi"@
    ||| k == "device_imei"@
    ||| k == "device_iccid"@
    ||| k == "cell_home_mcc"@
    ||| k == "cell_home_mnc"@
    ||| k == "cell_network_mcc"@
    ||| k == "cell_network_mnc"@
    ||| k == "device_languages"@
    ||| k == "adr_carcrash_time"@
    ||| k == "hmac"@
}

/// A pair named otherwise than `key`, wherever it stands, does not change
/// the value found for `key`.
pub proof fn lemma_lookup_skips_other_key(
    p: Seq<(Seq<char>, Seq<char>)>,
    x: (Seq<char>, Seq<char>),
    q: Seq<(Seq<char>, Seq<char>)>,
    key: Seq<char>,
)
    requires
        x.0 != key,
    ensures
        lookup(p.push(x) + q, key) == lookup(p + q, key),
    decreases q.len(),
{
    if q.len() == 0 {
        assert(p.push(x) + q == p.push(x));
        assert(p + q == p);
        assert(p.push(x).drop_last() == p);
    } else {
        lemma_lookup_skips_other_key(p, x, q.drop_last(), key);
        assert((p.push(x) + q).drop_last() == p.push(x) + q.drop_last());
        assert((p + q).drop_last() == p + q.drop_last());
    }
}

/// A property whose name neither SMS grammar reads changes neither the
/// version found nor any field of the record, wherever it stands: it is
/// ignored, and raises no error.
pub proof fn lemma_sms_ignores_unknown_key(
    r: SmsData,
    p: Seq<(Seq<char>, Seq<char>)>,
    x: (Seq<char>, Seq<char>),
    q: Seq<(Seq<char>, Seq<char>)>,
    byte_len: int,
)
    requires
        !is_sms_key(x.0),
    ensures
        sms_version(p.push(x) + q) == sms_version(p + q),
        is_v1(r, p.push(x) + q, byte_len) == is_v1(r, p + q, byte_len),
        is_v2(r, p.push(x) + q) == is_v2(r, p + q),
{
    assert forall|k: Seq<char>| is_sms_key(k) implies lookup(p.push(x) + q, k) == lookup(p + q, k) by {
        lemma_lookup_skips_other_key(p, x, q, k);
    }
    assert(is_sms_key(header_key()));
    assert(is_sms_key(seq!['l', 'g']));
    assert(is_sms_key(seq!['l', 't']));
    assert(is_sms_key(seq!['r', 'd']));
    assert(is_sms_key(seq!['t', 'o', 'p']));
    assert(is_sms_key(seq!['l', 'c']));
    assert(is_sms_key(seq!['p', 'm']));
    assert(is_sms_key(seq!['s', 'i']));
    assert(is_sms_key(seq!['e', 'i']));
    assert(is_sms_key(seq!['m', 'c', 'c']));
    assert(is_sms_key(seq!['m', 'n', 'c']));
    assert(is_sms_key(seq!['m', 'l']));
    assert(is_sms_key(seq!['e', 'n']));
    assert(is_sms_key(seq!['e', 't']));
    assert(is_sms_key(seq!['l', 'o']));
    assert(is_sms_key(seq!['l', 'z']));
    assert(is_sms_key(seq!['l', 's']));
    assert(is_sms_key(seq!['n', 'c']));
    assert(is_sms_key(seq!['h', 'c']));
}

/// A pair whose name the form grammar does not read changes no field of
/// the HTTPS record, wherever it stands.
pub proof fn lemma_form_ignores_unknown_key(
    r: HttpsData,
    p: Seq<(Seq<char>, Seq<char>)>,
    x: (Seq<char>, Seq<char>),
    q: Seq<(Seq<char>, Seq<char>)>,
)
    requires
        !is_form_key(x.0),
    ensures
        is_https(r, p.push(x) + q) == is_https(r, p + q),
{
    assert forall|k: Seq<char>| is_form_key(k) implies lookup(p.push(x) + q, k) == lookup(p + q, k) by {
        lemma_lookup_skips_other_key(p, x, q, k);
    }
    assert(is_form_key("v"@));
    assert(is_form_key("emergency_number"@));
    assert(is_form_key("source"@));
    assert(is_form_key("thunderbird_version"@));
    assert(is_form_key("time"@));
    assert(is_form_key("gt_location_latitude"@));
    assert(is_form_key("gt_location_longitude"@));
    assert(is_form_key("location_latitude"@));
    assert(is_form_key("location_longitude"@));
    assert(is_form_key("location_time"@));
    assert(is_form_key("location_altitude"@));
    assert(is_form_key("location_floor"@));
    assert(is_form_key("location_source"@));
    assert(is_form_key("location_accuracy"@));
    assert(is_form_key("location_vertical_accuracy"@));
    assert(is_form_key("location_confidence"@));
    assert(is_form_key("location_bearing"@));
    assert(is_form_key("location_speed"@));
    assert(is_form_key("device_number"@));
    assert(is_form_key("device_model"@));
    assert(is_form_key("device_imsi"@));
    assert(is_form_key("device_imei"@));
    assert(is_form_key("device_iccid"@));
    assert(is_form_key("cell_home_mcc"@));
    assert(is_form_key("cell_home_mnc"@));
    assert(is_form_key("cell_network_mcc"@));
    assert(is_form_key("cell_network_mnc"@));
    assert(is_form_key("device_languages"@));
    assert(is_form_key("adr_carcrash_time"@));
    assert(is_form_key("hmac"@));
}

/// An SMS text whose header property is missing, or is neither `1` nor
/// `2`, decodes to an unimplemented-version error and no record.
pub proof fn lemma_unknown_version_rejected(
    r: Result<SmsData, AmlError>,
    s: Seq<char>,
    byte_len: int,
)
    requires
        sms_result(r, s, byte_len),
        match lookup(properties(s), header_key()) {
            Some(v) => v != seq!['1'] && v != seq!['2'],
            None => true,
        },
    ensures
        r == Err::<SmsData, AmlError>(AmlError::UnimplementedVersion),
{
}

/// A payload in which `&hmac=` does not stand exactly once never
/// authenticates, whatever the key.
pub proof fn lemma_single_digest_field_needed(s: Seq<char>, key: Seq<u8>)
    requires
        forall|i: int| !hmac_only_at(s, i),
    ensures
        !is_authentic(s, key),
{
}

} // verus!
