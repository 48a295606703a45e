use aml_lib::aml::decimal_text;
use aml_lib::number::FloatText;
use aml_lib::{AmlData, AmlError, HttpsData, SmsData, VersionedSms};

fn float(x: &Option<FloatText>) -> Option<f64> {
    x.as_ref().map(|f| f.as_str().parse::<f64>().unwrap())
}

const SMS_V1: &str = r#"A"ML=1;lt=48.82639;lg=-2.36619;rd=52;top=20191112112928;lc=68;pm=G;si=208201771948415;ei=353472104343540;mcc=208;mnc=20;ml=128"#;
const SMS_V2: &str = r#"A"ML=2;en=+15555555555;et=1593187189;lo=-37.42175,-122.08461,2000.1;lc=68;lz=-100.1,100.1;ls=G;ei=358239059042542;nc=310260;hc=310260;lg=en-US"#;
const PACKED: &str = "415193D98BEDD8F4DEECE6A2C962B7DA8E7DEEB56232990B86A3D9623B39B92783EDE86F784F068BD560B6D80C1683E568B81D7BDCB3E176F076EFB89BA77B39DCCD56A3C966B15D39DD9BD570B2590E56CBC168B21A4DB66B8FC7BD590CB66BBBC73D990DB66BB37B31D90C";
const PACKED_BASE64: &str = "QVGT2Yvt2PTe7OaiyWK32o597rViMpkLhqPZYjs5uSeD7ehveE8Gi9VgttgMFoPlaLgde9yz4Xbwdu+4m6d7OdzNVqPJZrFdOd2b1XCyWQ5Wy8FoshpNtmuPx71ZDLZru8c9mQ22a7N7MdkM";
const HTTPS: &str = r#"v=1&device_number=%2B447477593102&location_latitude=55.85732&location_longitude=-4.26325&location_time=1476189444435&location_accuracy=10.4&location_source=GPS&location_certainty=83&location_altitude=0.0&location_floor=5&device_model=ABC+ABC+Detente+530&device_imei=354773072099116&device_imsi=234159176307582&device_os=AOS&cell_carrier=&cell_home_mcc=234&cell_home_mnc=15&cell_network_mcc=234&cell_network_mnc=15&cell_id=0213454321"#;
const SIGNED_PREFIX: &str = r#"v=1&device_number=%2B33611223344&location_latitude=0.85732&location_longitude=-4.26325&location_time=1604912121000&location_accuracy=10.4&location_source=GPS&location_certainty=83"#;
const DIGEST: &str = "f64c70eb238bb239e00e8ac8c023bf2b5d3c41dd";

#[test]
fn unpack_empty_input() {
    assert_eq!(SmsData::decode_7to8(&[]), Vec::<u8>::new());
}

#[test]
fn unpack_known_text() {
    // "hellohello" packed in seven-bit units.
    let packed = [0xE8u8, 0x32, 0x9B, 0xFD, 0x46, 0x97, 0xD9, 0xEC, 0x37];
    let units = SmsData::decode_7to8(&packed);
    assert_eq!(units.len(), 9 + 9 / 7);
    assert_eq!(units, b"hellohello".to_vec());
}

#[test]
fn unpack_masks_every_unit() {
    let units = SmsData::decode_7to8(&[0xFFu8; 14]);
    assert_eq!(units.len(), 16);
    assert!(units.iter().all(|u| *u < 0x80));
    assert_eq!(units, vec![0x7Fu8; 16]);
}

#[test]
fn v1_scenario_fields() {
    let sms = SmsData::from_text(SMS_V1).unwrap();
    assert_eq!(float(&sms.latitude), Some(48.82639));
    assert_eq!(float(&sms.longitude), Some(-2.36619));
    assert_eq!(float(&sms.accuracy), Some(52.0));
    assert_eq!(sms.imei, Some("353472104343540".to_string()));
    assert_eq!(sms.imsi, Some("208201771948415".to_string()));
    assert_eq!(sms.header, Some("1".to_string()));
    assert_eq!(sms.positioning_method, Some("G".to_string()));
    assert_eq!(sms.network_mcc, Some(208));
    assert_eq!(sms.network_mnc, Some(20));
    assert_eq!(sms.message_length, Some(128));
    assert_eq!(sms.time_of_positioning.map(|t| t.millis), Some(1573558168000));
    // The text is 126 bytes long, not 128.
    assert!(!sms.is_validated);
    assert!(sms.emergency_number.is_none());
}

#[test]
fn v1_length_matches_text() {
    let text = SMS_V1.replace("ml=128", "ml=126");
    let sms = SmsData::from_text(&text).unwrap();
    assert!(sms.is_validated);
}

#[test]
fn v1_versioned_record() {
    match VersionedSms::from_text(SMS_V1).unwrap() {
        VersionedSms::V1(d) => {
            assert_eq!(float(&d.radius), Some(52.0));
            assert_eq!(d.message_length, Some(128));
        },
        VersionedSms::V2(_) => panic!("wrong version"),
    }
}

#[test]
fn v2_scenario_fields() {
    let sms = SmsData::from_text(SMS_V2).unwrap();
    assert_eq!(float(&sms.latitude), Some(-37.42175));
    assert_eq!(float(&sms.longitude), Some(-122.08461));
    assert_eq!(float(&sms.accuracy), Some(2000.1));
    assert_eq!(float(&sms.altitude), Some(-100.1));
    assert_eq!(float(&sms.vertical_accuracy), Some(100.1));
    assert_eq!(sms.network_mcc, Some(310));
    assert_eq!(sms.network_mnc, Some(260));
    assert_eq!(sms.home_mcc, Some(310));
    assert_eq!(sms.home_mnc, Some(260));
    assert_eq!(sms.languages, Some("en-US".to_string()));
    assert_eq!(sms.emergency_number, Some("+15555555555".to_string()));
    assert_eq!(sms.beginning_of_call.map(|t| t.millis), Some(1593187189000));
    assert!(sms.time_of_positioning.is_none());
    assert!(sms.is_validated);

    let aml = AmlData::from_text_sms(SMS_V2).unwrap();
    assert_eq!(aml.network_mcc, Some("310".to_string()));
    assert_eq!(aml.network_mnc, Some("260".to_string()));
    assert_eq!(aml.positioning_method, Some("gps".to_string()));
    assert_eq!(aml.transport, "sms".to_string());
}

#[test]
fn v2_positioning_time_offset() {
    let text = format!("{};lt=-9999", SMS_V2);
    let sms = SmsData::from_text(&text).unwrap();
    assert_eq!(sms.time_of_positioning.map(|t| t.millis), Some((1593187189 - 9999) * 1000));
}

#[test]
fn v2_short_composites() {
    let sms = SmsData::from_text(r#"A"ML=2;lo=1.5;lz=;nc=31;hc=310;ls=f"#).unwrap();
    assert_eq!(float(&sms.latitude), Some(1.5));
    assert!(sms.longitude.is_none());
    assert!(sms.accuracy.is_none());
    assert!(sms.altitude.is_none());
    assert!(sms.network_mcc.is_none());
    assert!(sms.network_mnc.is_none());
    assert_eq!(sms.home_mcc, Some(310));
    assert!(sms.home_mnc.is_none());
    assert_eq!(sms.positioning_method, Some("F".to_string()));
    let aml = AmlData::from_sms_data(sms);
    assert_eq!(aml.positioning_method, Some("fused".to_string()));
}

#[test]
fn v2_seconds_out_of_range() {
    let sms = SmsData::from_text(r#"A"ML=2;et=9223372036854775807;lt=1"#).unwrap();
    assert!(sms.beginning_of_call.is_none());
    assert!(sms.time_of_positioning.is_none());
    let sms = SmsData::from_text(r#"A"ML=2;et=8210266876799"#).unwrap();
    assert_eq!(sms.beginning_of_call.map(|t| t.millis), Some(8210266876799000));
    let sms = SmsData::from_text(r#"A"ML=2;et=8210266876800"#).unwrap();
    assert!(sms.beginning_of_call.is_none());
    let sms = SmsData::from_text(r#"A"ML=2;et=-8334601228800"#).unwrap();
    assert_eq!(sms.beginning_of_call.map(|t| t.millis), Some(-8334601228800000));
    let sms = SmsData::from_text(r#"A"ML=2;et=-8334601228801"#).unwrap();
    assert!(sms.beginning_of_call.is_none());
}

#[test]
fn packed_blob_scenario() {
    let decoded = hex::decode(PACKED).unwrap();
    let sms = SmsData::from_data(&decoded).unwrap();
    assert_eq!(float(&sms.latitude), Some(37.42175));
    assert_eq!(float(&sms.longitude), Some(-122.08461));
    assert_eq!(sms.message_length, Some(123));
    assert!(sms.is_validated);
}

#[test]
fn https_scenario_fields() {
    let h = HttpsData::from_urlencoded(HTTPS);
    assert_eq!(h.location_source, Some("gps".to_string()));
    assert_eq!(float(&h.location_latitude), Some(55.85732));
    assert_eq!(h.device_number, Some("+447477593102".to_string()));
    assert_eq!(h.device_model, Some("ABC ABC Detente 530".to_string()));
    assert_eq!(float(&h.location_floor), Some(5.0));
    assert_eq!(h.location_time.map(|t| t.millis), Some(1476189444435));
    assert_eq!(h.cell_home_mcc, Some(234));
    assert!(h.source.is_none());

    let aml = AmlData::from_https(HTTPS).unwrap();
    assert_eq!(aml.positioning_method, Some("gps".to_string()));
    assert_eq!(float(&aml.latitude), Some(55.85732));
    assert_eq!(aml.network_mcc, Some("234".to_string()));
    assert_eq!(aml.network_mnc, Some("15".to_string()));
    assert_eq!(aml.transport, "https".to_string());
    assert!(aml.iccid.is_none());
}

#[test]
fn https_coercions() {
    let h = HttpsData::from_urlencoded(
        "source=CALL&location_source=Radar&cell_network_mcc=-5&time=abc&location_speed=%20%201.5%20&v=&hmac=x&v=2",
    );
    assert_eq!(h.source, Some("call".to_string()));
    assert!(h.location_source.is_none());
    assert_eq!(h.cell_network_mcc, Some(-5));
    assert!(h.time.is_none());
    assert_eq!(float(&h.location_speed), Some(1.5));
    assert_eq!(h.v, Some("2".to_string()));
    assert_eq!(h.hmac, Some("x".to_string()));
    let aml = AmlData::from_https_data(h);
    assert_eq!(aml.network_mcc, Some("-5".to_string()));
}

#[test]
fn https_millis_range() {
    let h = HttpsData::from_urlencoded("time=8210266876799999&location_time=8210266876800000");
    assert_eq!(h.time.map(|t| t.millis), Some(8210266876799999));
    assert!(h.location_time.is_none());
    let h = HttpsData::from_urlencoded("time=-8334601228800000&location_time=-8334601228800001");
    assert_eq!(h.time.map(|t| t.millis), Some(-8334601228800000));
    assert!(h.location_time.is_none());
}

#[test]
fn hmac_scenario() {
    let payload = format!("{}&hmac={}", SIGNED_PREFIX, DIGEST);
    assert!(HttpsData::is_authenticated(&payload, b"AML"));
    assert!(!HttpsData::is_authenticated(&payload, b"LMA"));
}

#[test]
fn hmac_mutated_prefix() {
    let mutated = SIGNED_PREFIX.replace("0.85732", "0.85733");
    let payload = format!("{}&hmac={}", mutated, DIGEST);
    assert!(!HttpsData::is_authenticated(&payload, b"AML"));
}

#[test]
fn hmac_marker_count() {
    assert!(!HttpsData::is_authenticated(SIGNED_PREFIX, b"AML"));
    let twice = format!("{}&hmac={}&hmac={}", SIGNED_PREFIX, DIGEST, DIGEST);
    assert!(!HttpsData::is_authenticated(&twice, b"AML"));
}

#[test]
fn digest_is_lower_hex() {
    assert!(HttpsData::digest_matches("0aff", &[0x0a, 0xff]));
    assert!(!HttpsData::digest_matches("0AFF", &[0x0a, 0xff]));
    assert!(!HttpsData::digest_matches("", &[0x0a]));
}

#[test]
fn unknown_version_rejected() {
    let r = SmsData::from_text(r#"A"ML=9;lt=48.8;lg=2.3"#);
    assert!(matches!(r, Err(AmlError::UnimplementedVersion)));
    let r = SmsData::from_text("lt=48.8;lg=2.3");
    assert!(matches!(r, Err(AmlError::UnimplementedVersion)));
    let r = AmlData::from_text_sms("");
    assert!(matches!(r, Err(AmlError::UnimplementedVersion)));
}

#[test]
fn unknown_keys_ignored() {
    let with = r#"zz=1;A"ML=1;foo=bar;lt=48.82639;x=;lg=-2.36619;junk"#;
    let sms = SmsData::from_text(with).unwrap();
    assert_eq!(float(&sms.latitude), Some(48.82639));
    assert_eq!(float(&sms.longitude), Some(-2.36619));
    let h = HttpsData::from_urlencoded("foo=bar&location_latitude=1.25&bar=&device_os=AOS");
    assert_eq!(float(&h.location_latitude), Some(1.25));
}

#[test]
fn sms_grammar_details() {
    let sms = SmsData::from_text(" A\"ML = 1 ; lt = 1.0 ; lt = 2.0 ; pm = w ; mcc=abc ; ei=a=b ;;").unwrap();
    assert_eq!(float(&sms.latitude), Some(2.0));
    assert_eq!(sms.positioning_method, Some("W".to_string()));
    assert!(sms.network_mcc.is_none());
    assert_eq!(sms.imei, Some("a=b".to_string()));
    let sms = SmsData::from_text(r#"A"ML=1;pm=F;top=2019"#).unwrap();
    assert!(sms.positioning_method.is_none());
    assert!(sms.time_of_positioning.is_none());
}

#[test]
fn base64_scenarios() {
    let r = AmlData::from_base64_sms(b"!!not base64!!");
    assert!(matches!(r, Err(AmlError::InvalidBase64)));
    let aml = AmlData::from_base64_sms(PACKED_BASE64.as_bytes()).unwrap();
    assert_eq!(float(&aml.latitude), Some(37.42175));
    assert_eq!(aml.imei, Some("358239059042542".to_string()));
}

#[test]
fn float_text_grammar() {
    for ok in ["1", "1.", ".5", "+1.5e3", "-2E-2", "inf", "-Infinity", "NaN", "1e+7"] {
        assert!(FloatText::parse(ok).is_some(), "{}", ok);
        assert!(ok.parse::<f64>().is_ok());
    }
    for bad in ["", ".", "1.2.3", " 1", "1e", "e5", "+", "1,5", "infinit", "0x10"] {
        assert!(FloatText::parse(bad).is_none(), "{}", bad);
        assert!(bad.parse::<f64>().is_err());
    }
}

#[test]
fn decimal_text_values() {
    assert_eq!(decimal_text(false, 0), "0");
    assert_eq!(decimal_text(false, 310), "310");
    assert_eq!(decimal_text(true, 5), "-5");
    assert_eq!(decimal_text(false, u64::MAX), u64::MAX.to_string());
}

#[test]
fn error_messages() {
    assert!(AmlError::UnimplementedVersion.message().contains("unimplemented version"));
    assert!(AmlError::InvalidBase64.message().contains("base64"));
}

#[test]
fn error_message_text() {
    assert_eq!(
        AmlError::UnimplementedVersion.message(),
        "Error: You have tried to parse an unimplemented version of SMS AML"
    );
    assert_eq!(
        AmlError::InvalidBase64.message(),
        "Error: You have tried to parse an corrumpted base64 SMS data"
    );
}
