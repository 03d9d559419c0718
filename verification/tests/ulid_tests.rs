use chrono::{DateTime, NaiveDateTime, Utc};
use ulid::Ulid as UlidGenerator;

use ulid_udf::args::ArgumentValue;
use ulid_udf::codec::{decode, encode, timestamp_of};
use ulid_udf::handle::UlidHandle;

#[test]
fn test_default() {
    let args: Vec<ArgumentValue> = vec![];
    let rt = UlidHandle::init(&args).unwrap();
    let res = rt.process();
    assert_eq!(res.len(), 26);
    let expected_datetime: DateTime<Utc> = UlidGenerator::generate().datetime().into();
    let result_datetime: DateTime<Utc> = UlidGenerator::from_string(res.as_str())
        .unwrap()
        .datetime()
        .into();
    assert_eq!(expected_datetime.timestamp(), result_datetime.timestamp())
}

#[test]
fn test_null() {
    let args = vec![ArgumentValue::Null];
    let rt = UlidHandle::init(&args).unwrap();
    let res = rt.process();
    assert_eq!(res.len(), 26);
    let expected_datetime: DateTime<Utc> = UlidGenerator::generate().datetime().into();
    let result_datetime: DateTime<Utc> = UlidGenerator::from_string(res.as_str())
        .unwrap()
        .datetime()
        .into();
    assert_eq!(expected_datetime.timestamp(), result_datetime.timestamp())
}

#[test]
fn test_from_datetime() {
    let date = "1983-04-13 12:09:14.274";
    let args = vec![ArgumentValue::Text(date.to_string())];
    let rt = UlidHandle::init(&args).unwrap();
    let res = rt.process();
    assert_eq!(res.len(), 26);
    let expected_datetime = NaiveDateTime::parse_from_str(date, "%Y-%m-%d %H:%M:%S%.3f")
        .unwrap()
        .and_utc();
    let result_datetime: DateTime<Utc> = UlidGenerator::from_string(res.as_str())
        .unwrap()
        .datetime()
        .into();
    assert_eq!(result_datetime.timestamp(), expected_datetime.timestamp())
}

#[test]
fn test_wrong_args() {
    let args = vec![ArgumentValue::Null, ArgumentValue::Null];
    match UlidHandle::init(&args) {
        Ok(_) => panic!("two arguments must be rejected"),
        Err(m) => assert_eq!(m, "expected 0 or 1 argument; got 2".to_owned()),
    }
}

#[test]
fn three_args_rejected() {
    let args = vec![
        ArgumentValue::Null,
        ArgumentValue::Text("x".to_string()),
        ArgumentValue::Null,
    ];
    match UlidHandle::init(&args) {
        Ok(_) => panic!("three arguments must be rejected"),
        Err(m) => assert_eq!(m, "expected 0 or 1 argument; got 3".to_owned()),
    }
}

#[test]
fn unparseable_date_rejected() {
    let args = vec![ArgumentValue::Text("not-a-date".to_string())];
    match UlidHandle::init(&args) {
        Ok(_) => panic!("an unparseable date must be rejected"),
        Err(m) => assert_eq!(m, "unable to parse date format".to_owned()),
    }
}

const ALPHABET: &str = "0123456789ABCDEFGHJKMNPQRSTVWXYZ";

#[test]
fn length_and_alphabet() {
    let values: [u128; 5] = [0, 1, 31, u128::MAX, 0x0163_4112_3E04_8D99_A43B_2529_15F9];
    for v in values {
        let s = encode(v);
        assert_eq!(s.len(), 26);
        for c in s.chars() {
            assert!(ALPHABET.contains(c));
        }
    }
}

#[test]
fn encode_matches_reference() {
    // The encoding must agree with the ulid crate's own, both directions.
    let values: [u128; 4] = [0, 42, u128::MAX, 0x0163_4112_3E04_8D99_A43B_2529_15F9];
    for v in values {
        let ours = encode(v);
        assert_eq!(ours, UlidGenerator(v).to_string());
        assert_eq!(UlidGenerator::from_string(&ours).unwrap().0, v);
    }
    assert_eq!(encode(0), "00000000000000000000000000");
    assert_eq!(encode(u128::MAX), "7ZZZZZZZZZZZZZZZZZZZZZZZZZ");
}

#[test]
fn decode_round_trip() {
    let values: [u128; 5] = [0, 1, 255, u128::MAX, 0x0163_4112_3E04_8D99_A43B_2529_15F9];
    for v in values {
        let s = encode(v);
        assert_eq!(decode(&s), Some(v));
        assert_eq!(encode(decode(&s).unwrap()), s);
    }
}

#[test]
fn decode_is_case_insensitive() {
    let v: u128 = 0x0163_4112_3E04_8D99_A43B_2529_15F9;
    let s = encode(v).to_lowercase();
    assert_eq!(decode(&s), Some(v));
}

#[test]
fn decode_rejects_bad_strings() {
    assert_eq!(decode(""), None);
    assert_eq!(decode("0123456789"), None);
    assert_eq!(decode("0000000000000000000000000U"), None);
    assert_eq!(decode("8ZZZZZZZZZZZZZZZZZZZZZZZZZ"), None);
    assert_eq!(decode("00000000000000000000000000X"), None);
}

#[test]
fn generated_timestamp_survives_round_trip() {
    let date = "2014-01-11 01:18:21.125";
    let args = vec![ArgumentValue::Text(date.to_string())];
    let rt = UlidHandle::init(&args).unwrap();
    let s = rt.process();
    let v = decode(&s).unwrap();
    let expected = NaiveDateTime::parse_from_str(date, "%Y-%m-%d %H:%M:%S%.3f")
        .unwrap()
        .and_utc()
        .timestamp_millis() as u64;
    assert_eq!(timestamp_of(v), expected);
}

#[test]
fn earlier_timestamp_sorts_first() {
    let ts1: u64 = 0x0163_4112_3E04;
    let ts2: u64 = ts1 + 1;
    // Whatever the random bits, one millisecond apart means strict order.
    let lows: [u128; 3] = [0, 0xFFFF_FFFF_FFFF_FFFF_FFFF, 0x1234_5678_9ABC_DEF0];
    for r1 in lows {
        for r2 in lows {
            let v1 = ((ts1 as u128) << 80) | r1;
            let v2 = ((ts2 as u128) << 80) | r2;
            assert!(encode(v1) < encode(v2));
        }
    }
}

#[test]
fn arity_message_renders_counts() {
    let mut args = vec![ArgumentValue::Null; 12];
    match UlidHandle::init(&args) {
        Ok(_) => panic!("twelve arguments must be rejected"),
        Err(m) => assert_eq!(m, "expected 0 or 1 argument; got 12"),
    }
    args = vec![ArgumentValue::Null; 307];
    match UlidHandle::init(&args) {
        Ok(_) => panic!("many arguments must be rejected"),
        Err(m) => assert_eq!(m, "expected 0 or 1 argument; got 307"),
    }
}

#[test]
fn pre_epoch_date_clamps_to_epoch() {
    let args = vec![ArgumentValue::Text("1901-02-03 04:05:06".to_string())];
    let rt = UlidHandle::init(&args).unwrap();
    let v = decode(&rt.process()).unwrap();
    assert_eq!(timestamp_of(v), 0);
}
