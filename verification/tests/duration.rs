use wstunnel::duration::{
    deserialize_duration, deserialize_option_duration, parse_duration_sec, serialize_duration,
    serialize_option_duration, HumanDuration,
};
use wstunnel::error::ErrorKind;

#[test]
fn test_parse_duration_sec() {
    assert_eq!(parse_duration_sec("5m").unwrap(), HumanDuration::from_secs(300));
    assert_eq!(parse_duration_sec("1s").unwrap(), HumanDuration::from_secs(1));
    assert_eq!(parse_duration_sec("3m").unwrap(), HumanDuration::from_secs(180));
    assert_eq!(parse_duration_sec("2h").unwrap(), HumanDuration::from_secs(7200));
    assert_eq!(parse_duration_sec("30").unwrap(), HumanDuration::from_secs(30));
    assert_eq!(parse_duration_sec("0").unwrap(), HumanDuration::from_secs(0));
    assert_eq!(parse_duration_sec("+7s").unwrap(), HumanDuration::from_secs(7));
    assert_eq!(parse_duration_sec("007m").unwrap(), HumanDuration::from_secs(420));
    assert_eq!(
        parse_duration_sec("18446744073709551615").unwrap(),
        HumanDuration::from_secs(u64::MAX)
    );
    assert_eq!(parse_duration_sec("5m").unwrap().as_secs(), 300);
}

#[test]
fn test_parse_duration_sec_errors() {
    for (text, count) in [
        ("", ""),
        ("s", ""),
        ("5x", "5x"),
        ("5 m", "5 "),
        ("-5s", "-5"),
        ("1.5h", "1.5"),
        ("5ms", "5m"),
        ("18446744073709551616", "18446744073709551616"),
        ("18446744073709551615m", "18446744073709551615"),
        ("5124095576030432h", "5124095576030432"),
        ("5\u{e9}", "5\u{e9}"),
    ] {
        let e = parse_duration_sec(text).unwrap_err();
        assert_eq!(e.kind, ErrorKind::Duration);
        assert_eq!(e.subject, count);
    }
    assert_eq!(
        parse_duration_sec("5x").unwrap_err().message(),
        "cannot parse duration of seconds from 5x"
    );
    assert_eq!(
        parse_duration_sec("5124095576030431h").unwrap(),
        HumanDuration::from_secs(5124095576030431 * 3600)
    );
}

#[test]
fn test_serialize_duration() {
    assert_eq!(serialize_duration(&HumanDuration::from_secs(300)), "5m");
    assert_eq!(serialize_duration(&HumanDuration::from_secs(3600)), "1h");
    assert_eq!(serialize_duration(&HumanDuration::from_secs(7260)), "121m");
    assert_eq!(serialize_duration(&HumanDuration::from_secs(59)), "59s");
    assert_eq!(serialize_duration(&HumanDuration::from_secs(0)), "0h");
    assert_eq!(serialize_duration(&HumanDuration::from_secs(u64::MAX)), "18446744073709551615s");
}

#[test]
fn test_duration_is_read_back_as_written() {
    for secs in [0, 1, 29, 30, 59, 60, 61, 180, 300, 3599, 3600, 3601, 86400, 123456789, u64::MAX, u64::MAX - 15] {
        let d = HumanDuration::from_secs(secs);
        assert_eq!(deserialize_duration(&serialize_duration(&d)).unwrap(), d);
    }
}

#[test]
fn test_option_duration() {
    assert_eq!(serialize_option_duration(&None), None);
    assert_eq!(serialize_option_duration(&Some(HumanDuration::from_secs(30))), Some("30s".to_string()));
    assert_eq!(deserialize_option_duration(None).unwrap(), None);
    assert_eq!(deserialize_option_duration(Some("2m")).unwrap(), Some(HumanDuration::from_secs(120)));
    assert_eq!(deserialize_option_duration(Some("soon")).unwrap_err().kind, ErrorKind::Duration);
}
