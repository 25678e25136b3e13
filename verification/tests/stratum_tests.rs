use ascend_kas::encoding::{parse_hex_u64, HexNumberError};
use ascend_kas::json::{Json, JsonNumber};
use ascend_kas::miner::FoundShare;
use ascend_kas::stratum::{parse_hash_words, HashWordsError, Outcome, SessionError, StratumSession};
use ascend_kas::target::TargetError;

fn text(t: &str) -> Json {
    Json::Str(t.to_string())
}

fn n(v: u64) -> Json {
    Json::Number(JsonNumber::PosInt(v))
}

fn arr(items: Vec<Json>) -> Json {
    Json::Array(items)
}

fn obj(entries: Vec<(&str, Json)>) -> Json {
    Json::Object(entries.into_iter().map(|(k, v)| (k.to_string(), v)).collect())
}

fn notification(method: &str, params: Json) -> Json {
    obj(vec![("method", text(method)), ("params", params)])
}

fn member<'a>(j: &'a Json, key: &str) -> &'a Json {
    match j {
        Json::Object(entries) => &entries.iter().find(|(k, _)| k == key).unwrap().1,
        _ => panic!("not an object"),
    }
}

#[test]
fn parses_four_word_hash() {
    assert_eq!(parse_hash_words(&arr(vec![n(1), n(2), n(3), n(4)])).unwrap(), [1, 2, 3, 4]);
}

#[test]
fn parses_hex_hash_as_little_endian_words() {
    let hex = "0100000000000000020000000000000003000000000000000400000000000080";
    assert_eq!(parse_hash_words(&text(hex)).unwrap(), [1, 2, 3, 0x8000_0000_0000_0004]);
    let prefixed = format!("0x{hex}");
    assert_eq!(parse_hash_words(&text(&prefixed)).unwrap(), [1, 2, 3, 0x8000_0000_0000_0004]);
    let upper = "FF00000000000000000000000000000000000000000000000000000000000000";
    assert_eq!(parse_hash_words(&text(upper)).unwrap(), [0xff, 0, 0, 0]);
}

#[test]
fn refuses_bad_hashes() {
    assert_eq!(parse_hash_words(&arr(vec![n(1), n(2), n(3)])), Err(HashWordsError::WrongWordCount));
    assert_eq!(parse_hash_words(&arr(vec![n(1), n(2), text("3"), n(4)])), Err(HashWordsError::WordNotU64));
    assert_eq!(parse_hash_words(&text("zz")), Err(HashWordsError::InvalidHex));
    assert_eq!(parse_hash_words(&text("abc")), Err(HashWordsError::InvalidHex));
    assert_eq!(parse_hash_words(&text("abcd")), Err(HashWordsError::WrongByteLength));
    assert_eq!(parse_hash_words(&Json::Null), Err(HashWordsError::UnsupportedEncoding));
}

#[test]
fn extranonce_layout_matches_reference() {
    let mut ses = StratumSession::new("x".into(), "w".into());
    ses.set_extranonce("abcd", 2).unwrap();
    assert_eq!(ses.nonce_mask, 0xffff);
    assert_eq!(ses.nonce_fixed, 0xabcd_0000);
}

#[test]
fn extranonce_edge_cases() {
    let mut ses = StratumSession::new("x".into(), "w".into());
    ses.set_extranonce("", 4).unwrap();
    assert_eq!((ses.nonce_mask, ses.nonce_fixed), (0xffff_ffff, 0));
    ses.set_extranonce("+1F", 7).unwrap();
    assert_eq!((ses.nonce_mask, ses.nonce_fixed), (0x00ff_ffff_ffff_ffff, 0x1f00_0000_0000_0000));
    ses.set_extranonce("12", 0).unwrap();
    assert_eq!((ses.nonce_mask, ses.nonce_fixed), (0, 0x12));
    ses.set_extranonce("zz", 8).unwrap();
    assert_eq!((ses.nonce_mask, ses.nonce_fixed), (u64::MAX, 0));
    assert_eq!(ses.set_extranonce("xyz", 2), Err(SessionError::InvalidExtranonce));
    assert_eq!(ses.set_extranonce("1ffffffffffffffff", 2), Err(SessionError::InvalidExtranonce));
    assert_eq!(ses.set_extranonce("+", 2), Err(SessionError::InvalidExtranonce));
    assert_eq!((ses.nonce_mask, ses.nonce_fixed), (u64::MAX, 0));
}

#[test]
fn extranonce_prefix_never_overlaps_free_bits() {
    let mut ses = StratumSession::new("x".into(), "w".into());
    for (extra, size) in [("abcd", 2), ("ffffffffffffffff", 3), ("1", 0), ("", 7), ("dead", 9)] {
        ses.set_extranonce(extra, size).unwrap();
        assert_eq!(ses.nonce_fixed & ses.nonce_mask, 0);
    }
}

#[test]
fn request_ids_count_up() {
    let mut ses = StratumSession::new("x".into(), "wallet".into());
    let sub = ses.subscribe_request("ascend_kas/0.1.0");
    let auth = ses.authorize_request();
    assert!(matches!(member(&sub, "id"), Json::Number(JsonNumber::PosInt(1))));
    assert!(matches!(member(&auth, "id"), Json::Number(JsonNumber::PosInt(2))));
    assert!(matches!(member(&auth, "method"), Json::Str(m) if m == "mining.authorize"));
    match member(&auth, "params") {
        Json::Array(p) => {
            assert!(matches!(&p[0], Json::Str(w) if w == "wallet"));
            assert!(matches!(&p[1], Json::Str(x) if x == "x"));
        }
        _ => panic!("params"),
    }
    assert_eq!(ses.next_id, 3);
}

#[test]
fn submit_formats_nonce_and_tracks_pending() {
    let mut ses = StratumSession::new("x".into(), "w".into());
    let share = FoundShare { generation: 3, job_id: "j1".into(), nonce: 0xabcd };
    let req = ses.submit_request(&share);
    match member(&req, "params") {
        Json::Array(p) => assert!(matches!(&p[2], Json::Str(h) if h == "000000000000abcd")),
        _ => panic!("params"),
    }
    assert_eq!(ses.stats.pending.get(&1).map(String::as_str), Some("j1"));
    // The pool accepts it.
    let reply = obj(vec![("id", n(1)), ("result", Json::Bool(true)), ("error", Json::Null)]);
    assert!(matches!(ses.handle_message(&reply), Ok(Outcome::ShareAnswered { id: 1, accepted: true })));
    assert_eq!(ses.stats.accepted, 1);
    assert!(ses.stats.pending.is_empty());
}

#[test]
fn share_answers_are_counted() {
    let mut ses = StratumSession::new("x".into(), "w".into());
    for nonce in 0..5u64 {
        ses.submit_request(&FoundShare { generation: 1, job_id: "j".into(), nonce });
    }
    let err = |id: u64, code: u64| obj(vec![("id", n(id)), ("error", arr(vec![n(code), text("e")]))]);
    assert!(matches!(ses.handle_message(&err(1, 21)), Ok(Outcome::RequestFailed { id: 1, code: 21, job: Some(ref j) }) if j == "j"));
    assert!(matches!(ses.handle_message(&err(2, 22)), Ok(Outcome::RequestFailed { code: 22, .. })));
    assert!(matches!(ses.handle_message(&err(3, 23)), Ok(Outcome::RequestFailed { code: 23, .. })));
    let r4 = obj(vec![("id", n(4)), ("result", arr(vec![Json::Bool(true)]))]);
    assert!(matches!(ses.handle_message(&r4), Ok(Outcome::ShareAnswered { accepted: true, .. })));
    let r5 = obj(vec![("id", n(5)), ("result", Json::Bool(false))]);
    assert!(matches!(ses.handle_message(&r5), Ok(Outcome::ShareAnswered { accepted: false, .. })));
    assert_eq!((ses.stats.stale, ses.stats.duplicate, ses.stats.low_diff), (1, 1, 1));
    assert_eq!((ses.stats.accepted, ses.stats.rejected), (1, 1));
    assert!(ses.stats.pending.is_empty());
    // An error without a usable code counts as a rejection (code 20).
    let e = obj(vec![("id", n(77)), ("error", text("nope"))]);
    assert!(matches!(ses.handle_message(&e), Ok(Outcome::RequestFailed { id: 77, code: 20, job: None })));
    assert_eq!(ses.stats.rejected, 2);
}

#[test]
fn notify_publishes_only_after_difficulty() {
    let mut ses = StratumSession::new("x".into(), "w".into());
    let notify = notification("mining.notify", arr(vec![text("job1"), arr(vec![n(1), n(2), n(3), n(4)]), n(77)]));
    assert!(matches!(ses.handle_message(&notify), Ok(Outcome::Nothing)));
    assert!(ses.last_template.is_some());
    let diff = notification("mining.set_difficulty", arr(vec![n(1)]));
    assert!(matches!(ses.handle_message(&diff), Ok(Outcome::SetDifficulty(JsonNumber::PosInt(1)))));
    let job = ses.apply_difficulty(1.0f32.to_bits()).unwrap().unwrap();
    assert_eq!(job.id, "job1");
    assert_eq!(job.pre_pow_hash, [1, 2, 3, 4]);
    assert_eq!(job.timestamp, 77);
    assert_eq!(job.target.0, [0, 0, 0, 0xffff_0000]);
    assert_eq!((job.nonce_mask, job.nonce_fixed), (u64::MAX, 0));
    // A new template now publishes at once.
    let notify2 = notification("mining.notify", arr(vec![text("job2"), arr(vec![n(5), n(6), n(7), n(8)]), n(78)]));
    match ses.handle_message(&notify2) {
        Ok(Outcome::Publish(req)) => assert_eq!(req.id, "job2"),
        _ => panic!("expected a job"),
    }
}

#[test]
fn extranonce_notification_and_subscribe_reply_relay_the_nonce() {
    let mut ses = StratumSession::new("x".into(), "w".into());
    let m = notification("mining.set_extranonce", arr(vec![text("ab"), n(3)]));
    assert!(matches!(ses.handle_message(&m), Ok(Outcome::Nothing)));
    assert_eq!((ses.nonce_mask, ses.nonce_fixed), (0xff_ffff, 0xab00_0000));
    let m = notification("set_extranonce", arr(vec![]));
    assert!(matches!(ses.handle_message(&m), Ok(Outcome::Nothing)));
    assert_eq!((ses.nonce_mask, ses.nonce_fixed), (u64::MAX, 0));
    let reply = obj(vec![("id", n(1)), ("result", arr(vec![Json::Null, text("cafe"), n(2)]))]);
    assert!(matches!(ses.handle_message(&reply), Ok(Outcome::Nothing)));
    assert_eq!((ses.nonce_mask, ses.nonce_fixed), (0xffff, 0xcafe_0000));
    let bad = notification("mining.set_extranonce", arr(vec![text("q"), n(2)]));
    assert_eq!(ses.handle_message(&bad).unwrap_err(), SessionError::InvalidExtranonce);
    assert_eq!((ses.nonce_mask, ses.nonce_fixed), (0xffff, 0xcafe_0000));
}

#[test]
fn malformed_messages_are_refused_or_ignored() {
    let mut ses = StratumSession::new("x".into(), "w".into());
    let e = |m: Json| StratumSession::new("x".into(), "w".into()).handle_message(&m).unwrap_err();
    assert_eq!(e(notification("mining.set_difficulty", arr(vec![]))), SessionError::MissingDifficulty);
    assert_eq!(e(notification("mining.notify", text("x"))), SessionError::NotifyParamsNotArray);
    assert_eq!(e(notification("mining.notify", arr(vec![text("a"), n(1)]))), SessionError::NotifyTooShort);
    assert_eq!(e(notification("mining.notify", arr(vec![n(1), n(1), n(1)]))), SessionError::JobIdNotString);
    assert_eq!(
        e(notification("mining.notify", arr(vec![text("a"), n(1), n(1)]))),
        SessionError::PrePowHash(HashWordsError::UnsupportedEncoding)
    );
    assert_eq!(
        e(notification("mining.notify", arr(vec![text("a"), arr(vec![n(1), n(2), n(3), n(4)]), text("t")]))),
        SessionError::TimestampNotU64
    );
    assert!(matches!(ses.handle_message(&notification("mining.ping", arr(vec![]))), Ok(Outcome::Unsupported)));
    assert!(matches!(ses.handle_message(&obj(vec![("foo", n(1))])), Ok(Outcome::Unhandled)));
    assert!(matches!(ses.handle_message(&obj(vec![("id", n(9)), ("result", Json::Bool(true))])), Ok(Outcome::Nothing)));
    assert_eq!(ses.stats.accepted, 0);
}

#[test]
fn difficulty_errors_surface() {
    let mut ses = StratumSession::new("x".into(), "w".into());
    assert_eq!(ses.apply_difficulty((-1.0f32).to_bits()).unwrap_err(), SessionError::Target(TargetError::NegativeReciprocal));
    assert_eq!(ses.apply_difficulty(f32::INFINITY.to_bits()).unwrap_err(), SessionError::Target(TargetError::TooBig));
    assert!(ses.target.is_zero());
    assert!(matches!(ses.apply_difficulty(2.0f32.to_bits()), Ok(None)));
    assert!(!ses.target.is_zero());
}

#[test]
fn hash_words_round_trip_through_hex() {
    let w = [0x0123_4567_89ab_cdefu64, 0, u64::MAX, 0x8000_0000_0000_0001];
    let mut bytes = Vec::new();
    for word in w {
        bytes.extend_from_slice(&word.to_le_bytes());
    }
    let text = hex::encode(&bytes);
    assert_eq!(parse_hash_words(&text_json(&text)).unwrap(), w);
    assert_eq!(parse_hash_words(&text_json(&format!("0x{text}"))).unwrap(), w);
    assert_eq!(parse_hash_words(&arr(w.iter().map(|&x| n(x)).collect())).unwrap(), w);
}

fn text_json(t: &str) -> Json {
    text(t)
}

#[test]
fn hex_number_errors_tell_overflow_from_bad_digits() {
    assert_eq!(parse_hex_u64("ffffffffffffffff"), Ok(u64::MAX));
    assert_eq!(parse_hex_u64("+A"), Ok(10));
    assert_eq!(parse_hex_u64("10000000000000000"), Err(HexNumberError::Overflow));
    assert_eq!(parse_hex_u64("1000000000000000g"), Err(HexNumberError::InvalidDigit));
    assert_eq!(parse_hex_u64("+"), Err(HexNumberError::InvalidDigit));
    assert_eq!(parse_hex_u64("-1"), Err(HexNumberError::InvalidDigit));
}
