use std::time::Duration;

use jevkit::text::{parse_u64, push_decimal};
use jevkit::{expect_answer, AnswerKind, best_index, level_slot, level_slots, rank_items, ranking, ApiError, DecodeError, Error};

#[test]
fn ranking_is_most_likely_first_and_stable() {
    assert_eq!(ranking(&[10, 70, 20]), vec![1, 2, 0]);
    assert_eq!(ranking(&[5, 5, 3, 5]), vec![0, 1, 3, 2]);
    assert_eq!(ranking(&[]), Vec::<usize>::new());
    assert_eq!(ranking(&[0]), vec![0]);
}

#[test]
fn best_index_takes_the_first_maximum() {
    assert_eq!(best_index(&[1, 2, 7]), 2);
    assert_eq!(best_index(&[1, 3, 3]), 1);
    assert_eq!(best_index(&[4]), 0);
    let keys = [9, 2, 9, 11, 11];
    assert_eq!(ranking(&keys)[0], best_index(&keys));
}

#[test]
fn level_keys_map_onto_positions() {
    assert_eq!(level_slot("0", 3), Ok(0));
    assert_eq!(level_slot("+2", 3), Ok(2));
    assert_eq!(
        level_slot("7", 3),
        Err(DecodeError::WrongLevelCount { expected: 3, found: 8 })
    );
    assert_eq!(level_slot("x", 3), Err(DecodeError::UnknownLabel("x".into())));
    assert_eq!(level_slot("", 3), Err(DecodeError::UnknownLabel("".into())));
    assert_eq!(level_slot(" 1", 3), Err(DecodeError::UnknownLabel(" 1".into())));
}

#[test]
fn numbers_read_and_write() {
    assert_eq!(parse_u64("42"), Some(42));
    assert_eq!(parse_u64("+7"), Some(7));
    assert_eq!(parse_u64("+"), None);
    assert_eq!(parse_u64("-1"), None);
    assert_eq!(parse_u64("18446744073709551615"), Some(u64::MAX));
    assert_eq!(parse_u64("18446744073709551616"), None);
    let mut s = String::from("n=");
    push_decimal(&mut s, 1090);
    assert_eq!(s, "n=1090");
    let mut z = String::new();
    push_decimal(&mut z, 0);
    assert_eq!(parse_u64(&z), Some(0));
}

#[test]
fn decode_error_texts() {
    assert_eq!(DecodeError::Empty.text(), "no probabilities supplied");
    assert_eq!(DecodeError::UnknownLabel("legal".into()).text(), "unknown label `legal`");
    assert_eq!(DecodeError::InvalidProbability("1.5".into()).text(), "invalid probability 1.5");
    assert_eq!(
        DecodeError::WrongLevelCount { expected: 3, found: 2 }.text(),
        "expected 3 level probabilities, found 2"
    );
    assert_eq!(DecodeError::BadIndex(12).text(), "no level with index 12");
}

#[test]
fn error_texts() {
    assert_eq!(Error::Config("x".into()).text(), "invalid client configuration: x");
    assert_eq!(Error::Transport("dns".into()).text(), "transport error: dns");
    assert_eq!(
        Error::MissingAnswer { id: "q".into() }.text(),
        "no answer returned for question `q`"
    );
    assert_eq!(
        Error::WrongAnswerType { id: "q".into(), expected: "choice", found: "noul" }.text(),
        "question `q`: expected a choice answer, got noul"
    );
    assert_eq!(
        Error::Decode { id: "department".into(), source: DecodeError::UnknownLabel("legal".into()) }
            .text(),
        "question `department`: unknown label `legal`"
    );
    let bad = serde_json::from_str::<serde_json::Value>("{").unwrap_err();
    let expected = format!("json error: {bad}");
    assert_eq!(Error::Json(bad).text(), expected);
}

#[test]
fn api_errors_read_message_detail_or_raw_body() {
    let e = ApiError::from_parts(
        401,
        &[],
        br#"{"message":"bad key","error_type":"authentication_error"}"#,
    );
    assert_eq!(e.status, 401);
    assert_eq!(e.message, "bad key");
    assert_eq!(e.error_type.as_deref(), Some("authentication_error"));
    assert_eq!(e.retry_after, None);
    assert_eq!(e.text(), "API error 401 (authentication_error): bad key");

    let e = ApiError::from_parts(500, &[], br#"{"detail":{"why":1},"error_type":7}"#);
    assert_eq!(e.message, r#"{"why":1}"#);
    assert_eq!(e.error_type.as_deref(), Some("7"));

    let long = "x".repeat(400);
    let e = ApiError::from_parts(502, &[], long.as_bytes());
    assert_eq!(e.message.len(), 300);
    assert!(e.is_retryable());

    let e = ApiError::from_parts(400, &[], &[0x66, 0xff, 0x6f]);
    assert_eq!(e.message, "f\u{fffd}o");
    assert!(!e.is_retryable());

    let e = ApiError::from_parts(418, &[], b"");
    assert_eq!(e.text(), "API error 418");
}

#[test]
fn retry_after_comes_from_the_first_matching_header() {
    let headers = vec![
        ("Content-Type".to_string(), "text/plain".to_string()),
        ("RETRY-after".to_string(), " 7 ".to_string()),
        ("Retry-After".to_string(), "9".to_string()),
    ];
    let e = ApiError::from_parts(429, &headers, b"{}");
    assert_eq!(e.retry_after, Some(Duration::from_secs(7)));
    let headers = vec![("Retry-After".to_string(), "Wed, 21 Oct 2015".to_string())];
    assert_eq!(ApiError::from_parts(429, &headers, b"{}").retry_after, None);
    for status in [429u16, 502, 503, 504, 529] {
        assert!(ApiError::from_parts(status, &[], b"").is_retryable());
    }
    assert_eq!(
        Error::Api(ApiError::from_parts(503, &[], b"down")).text(),
        "API error 503: down"
    );
}

#[test]
fn level_keys_stop_at_the_first_bad_one() {
    let keys = vec!["2".to_string(), "0".to_string(), "1".to_string()];
    assert_eq!(level_slots(&keys, 3), Ok(vec![2, 0, 1]));
    let keys = vec!["0".to_string(), "7".to_string(), "x".to_string()];
    assert_eq!(
        level_slots(&keys, 3),
        Err(DecodeError::WrongLevelCount { expected: 3, found: 8 })
    );
    let keys = vec!["x".to_string(), "7".to_string()];
    assert_eq!(level_slots(&keys, 3), Err(DecodeError::UnknownLabel("x".into())));
}

#[test]
fn items_are_ranked_stably_by_key() {
    let items = vec![("misc", 10u64), ("billing", 70), ("technical", 20), ("sales", 70)];
    let ranked = rank_items(items);
    assert_eq!(
        ranked,
        vec![("billing", 70), ("sales", 70), ("technical", 20), ("misc", 10)]
    );
    assert_eq!(rank_items(Vec::<(String, u64)>::new()), vec![]);
}

#[test]
fn absent_and_wrong_type_answers_are_distinct_errors() {
    assert!(expect_answer("q", AnswerKind::Choice, Some(AnswerKind::Choice)).is_ok());
    match expect_answer("department", AnswerKind::Choice, Some(AnswerKind::Noul)) {
        Err(Error::WrongAnswerType { id, expected, found }) => {
            assert_eq!((id.as_str(), expected, found), ("department", "choice", "noul"))
        }
        other => panic!("{other:?}"),
    }
    match expect_answer("is_urgent", AnswerKind::Noul, Some(AnswerKind::Unknown)) {
        Err(Error::WrongAnswerType { found, .. }) => assert_eq!(found, "unknown"),
        other => panic!("{other:?}"),
    }
    match expect_answer("is_urgent", AnswerKind::Noul, None) {
        Err(Error::MissingAnswer { id }) => assert_eq!(id, "is_urgent"),
        other => panic!("{other:?}"),
    }
    assert_eq!(AnswerKind::Score.name(), "score");
}
