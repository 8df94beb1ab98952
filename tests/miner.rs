use solominer::{
    after_batch, before_batch, restart_pause_ms, MineAction,
    build_merkle_root, calculate_target, create_block_header, decode_job, decode_notify, double_sha256,
    hash_meets_target, new_extranonce2, nonce_digits, nonce_hex, parse_height, parse_subscription,
    prepare_job, request_line, reverse_hex_bytes, search_nonces, session_step, submit_request, target_from_compact,
    validate_bitcoin_address, JsonValue, MinerError, MiningConfig, MiningJob, Request, SearchOutcome,
    SessionAction, SessionEvent, SessionState, TelegramConfig,
};

fn hex(bytes: &[u8]) -> String {
    bytes.iter().map(|b| format!("{:02x}", b)).collect()
}

fn job(nbits: &str, branch: Vec<String>) -> MiningJob {
    MiningJob {
        job_id: "1".to_string(),
        prevhash: "00000000000000000000000000000000000000000000000000000000000000aa".to_string(),
        coinb1: "01000000".to_string(),
        coinb2: "ffffffff".to_string(),
        merkle_branch: branch,
        version: "00000001".to_string(),
        nbits: nbits.to_string(),
        ntime: "5f5e1000".to_string(),
        clean_jobs: true,
    }
}

fn strs(items: &[&str]) -> Vec<JsonValue> {
    items.iter().map(|s| JsonValue::Str(s.to_string())).collect()
}

#[test]
fn target_of_difficulty_one() {
    let t = calculate_target("1d00ffff").unwrap();
    assert_eq!(t.len(), 32);
    for (i, b) in t.iter().enumerate() {
        let want = match i {
            4 | 5 => 0xff,
            _ => 0x00,
        };
        assert_eq!(*b, want, "byte {}", i);
    }
    assert_eq!(&t[3..6], &[0x00, 0xff, 0xff]);
    assert_eq!(target_from_compact(&[0x1d, 0x00, 0xff, 0xff]).unwrap(), t);
}

#[test]
fn target_exponent_bounds() {
    assert_eq!(target_from_compact(&[0x02, 0x00, 0xff, 0xff]), Err(MinerError::InvalidTarget));
    assert_eq!(target_from_compact(&[0x21, 0x00, 0xff, 0xff]), Err(MinerError::InvalidTarget));
    assert_eq!(calculate_target("0200ffff"), Err(MinerError::InvalidTarget));
    assert_eq!(calculate_target("2100ffff"), Err(MinerError::InvalidTarget));
    let low = target_from_compact(&[0x03, 0x12, 0x34, 0x56]).unwrap();
    assert_eq!(&low[29..32], &[0x12, 0x34, 0x56]);
    let high = target_from_compact(&[0x20, 0x12, 0x34, 0x56]).unwrap();
    assert_eq!(&high[0..3], &[0x12, 0x34, 0x56]);
    assert!(high[3..].iter().all(|b| *b == 0));
}

#[test]
fn target_text_errors() {
    assert_eq!(calculate_target("1d00fff"), Err(MinerError::Decode));
    assert_eq!(calculate_target("1d00fffg"), Err(MinerError::Decode));
    assert_eq!(calculate_target(""), Err(MinerError::Decode));
}

#[test]
fn meets_target_comparisons() {
    let zero = [0u8; 32];
    assert!(hash_meets_target(&zero, &zero));
    let mut one = [0u8; 32];
    one[0] = 0x01;
    assert!(!hash_meets_target(&one, &zero));
    let mut low_high = [0xffu8; 32];
    low_high[0] = 0x00;
    assert!(!hash_meets_target(&low_high, &zero));
    assert!(hash_meets_target(&zero, &low_high));
    let mut a = [0u8; 32];
    let mut b = [0u8; 32];
    a[31] = 5;
    b[31] = 6;
    assert!(hash_meets_target(&a, &b));
    assert!(!hash_meets_target(&b, &a));
    assert!(!hash_meets_target(&zero[..31], &zero[..31]));
}

#[test]
fn header_is_80_bytes() {
    let h = create_block_header("1", "aa", "bb", "1d00ffff", "5f5e1000", "1").unwrap();
    assert_eq!(h.len(), 80);
    assert_eq!(&h[0..4], &[0, 0, 0, 1]);
    assert_eq!(h[4], 0xaa);
    assert!(h[5..36].iter().all(|b| *b == 0));
    assert_eq!(h[36], 0xbb);
    assert_eq!(&h[68..72], &[0x1d, 0x00, 0xff, 0xff]);
    assert_eq!(&h[72..76], &[0x5f, 0x5e, 0x10, 0x00]);
    assert_eq!(&h[76..80], &[0, 0, 0, 1]);
}

#[test]
fn header_rejects_malformed_hex() {
    assert_eq!(create_block_header("zz", "aa", "bb", "1d00ffff", "5f5e1000", "0"), Err(MinerError::Decode));
    assert_eq!(create_block_header("1", "a", "bb", "1d00ffff", "5f5e1000", "0").map(|h| h.len()), Ok(80));
    assert_eq!(create_block_header("1", "aa", "bb", "1d00ffff", "5f5e1000", "123456789"), Err(MinerError::Decode));
}

#[test]
fn double_hash_of_empty_input() {
    assert_eq!(
        hex(&double_sha256(&[])),
        "5df6e0e2761359d30a8275058e299fcc0381534545f55cf43e41983f5d4c9456"
    );
}

#[test]
fn merkle_empty_and_single_branch() {
    let h = double_sha256(b"coinbase");
    assert_eq!(build_merkle_root(&h, &vec![]), h);
    let entry = double_sha256(b"sibling");
    let mut joined = h.clone();
    joined.extend_from_slice(&entry);
    assert_eq!(build_merkle_root(&h, &vec![entry.clone()]), double_sha256(&joined));
    let two = build_merkle_root(&h, &vec![entry.clone(), entry.clone()]);
    let mut again = double_sha256(&joined);
    again.extend_from_slice(&entry);
    assert_eq!(two, double_sha256(&again));
}

#[test]
fn reverse_hex_by_bytes() {
    assert_eq!(reverse_hex_bytes("abcdef"), "efcdab");
    assert_eq!(reverse_hex_bytes("abcde"), "cdab");
    assert_eq!(reverse_hex_bytes(""), "");
    assert_eq!(reverse_hex_bytes("0123"), "2301");
}

#[test]
fn job_needs_nine_fields() {
    let eight = strs(&["1", "p", "c1", "c2", "b", "v", "n", "t"]);
    assert_eq!(decode_job(&eight).err(), Some(MinerError::Protocol));
    let mut nine = strs(&["1", "p", "c1", "c2"]);
    nine.push(JsonValue::Array(strs(&["aa", "bb"])));
    nine.extend(strs(&["v", "n", "t", "x"]));
    let job = decode_job(&nine).unwrap();
    assert!(!job.clean_jobs);
    assert_eq!(job.job_id, "1");
    assert_eq!(job.merkle_branch, vec!["aa".to_string(), "bb".to_string()]);
    assert_eq!(job.ntime, "t");
}

#[test]
fn job_lenient_branch_and_flag() {
    let mut p = strs(&["1", "p", "c1", "c2"]);
    p.push(JsonValue::Null);
    p.extend(strs(&["v", "n", "t"]));
    p.push(JsonValue::Bool(true));
    let job = decode_job(&p).unwrap();
    assert!(job.merkle_branch.is_empty());
    assert!(job.clean_jobs);
    let mut missing = strs(&["1", "p", "c1", "c2", "b"]);
    missing.push(JsonValue::Number(Some(5)));
    missing.extend(strs(&["n", "t", "x"]));
    assert_eq!(decode_job(&missing).err(), Some(MinerError::Protocol));
}

#[test]
fn notify_line_decodes() {
    let line = br#"{"id":null,"method":"mining.notify","params":["4f","ab","01","02",["cc"],"20000000","1d00ffff","5f5e1000",false]}"#;
    let job = decode_notify(line).unwrap();
    assert_eq!(job.job_id, "4f");
    assert_eq!(job.merkle_branch, vec!["cc".to_string()]);
    assert_eq!(job.nbits, "1d00ffff");
    assert!(!job.clean_jobs);
    assert_eq!(decode_notify(b"not json").err(), Some(MinerError::Protocol));
    assert_eq!(decode_notify(br#"{"params":["1"]}"#).err(), Some(MinerError::Protocol));
}

#[test]
fn subscription_answer() {
    let s = parse_subscription(br#"{"id":1,"result":[[["mining.notify","x"]],"f8002c90",4],"error":null}"#).unwrap();
    assert_eq!(s.extranonce1, "f8002c90");
    assert_eq!(s.extranonce2_size, 4);
    let s = parse_subscription(br#"{"id":1,"result":[[],"ab"]}"#).unwrap();
    assert_eq!(s.extranonce2_size, 0);
    assert_eq!(parse_subscription(br#"{"id":1,"result":[[]]}"#).err(), Some(MinerError::Protocol));
    assert_eq!(parse_subscription(b"").err(), Some(MinerError::Protocol));
}

#[test]
fn height_answer() {
    assert_eq!(parse_height(br#"{"hash":"00ab","height":850123}"#), Ok(850123));
    assert_eq!(parse_height(br#"{"hash":"00ab"}"#), Ok(0));
    assert_eq!(parse_height(b"<html>"), Err(MinerError::Protocol));
}

#[test]
fn heights_never_decrease() {
    let mut c = MiningConfig::new("addr".to_string(), false, None);
    let mut seen = Vec::new();
    for h in [5u64, 3, 9, 7, 9, 2] {
        c.update_height(h);
        seen.push(c.current_height);
    }
    assert_eq!(seen, vec![5, 5, 9, 9, 9, 9]);
    assert_eq!(c.current_height, 9);
    assert!(c.is_stale(8));
    assert!(!c.is_stale(9));
}

#[test]
fn telegram_configured() {
    let t = TelegramConfig { bot_token: "SECRET-REDACTED".to_string(), user_id: "42".to_string() };
    assert!(t.is_configured());
    let t = TelegramConfig { bot_token: String::new(), user_id: "42".to_string() };
    assert!(!t.is_configured());
}

#[test]
fn address_check() {
    assert!(validate_bitcoin_address("1BvBMSEYstWetqTFn5Au4m4GFg7xJaNVN2"));
    assert!(!validate_bitcoin_address("1BvBMSEYstWetqTFn5Au4m4GFg7xJaNVN0"));
    assert!(!validate_bitcoin_address("short"));
    assert!(!validate_bitcoin_address("1BvBMSEYstWetqTFn5Au4m4GFg7xJaN-N2"));
}

#[test]
fn nonce_text_forms() {
    assert_eq!(nonce_hex(0x1a2b), "00001a2b");
    assert_eq!(nonce_hex(u32::MAX), "ffffffff");
    assert_eq!(nonce_digits(0xdeadbeef), b"deadbeef".to_vec());
    let e = new_extranonce2();
    assert_eq!(e.len(), 8);
    assert!(e.chars().all(|c| c.is_ascii_hexdigit()));
}

#[test]
fn search_is_deterministic_on_fixed_job() {
    let j = job("1d00ffff", vec![]);
    let t = prepare_job(&j, "f8002c90", "00000001").unwrap();
    let first = search_nonces(&t, 0, 2000).unwrap();
    let second = search_nonces(&t, 0, 2000).unwrap();
    match (&first, &second) {
        (SearchOutcome::Found { nonce: a, hash: ha }, SearchOutcome::Found { nonce: b, hash: hb }) => {
            assert_eq!(a, b);
            assert_eq!(ha, hb);
            assert!(hash_meets_target(ha, &t.target));
        }
        (SearchOutcome::Exhausted, SearchOutcome::Exhausted) => {}
        _ => panic!("two searches disagree"),
    }
}

#[test]
fn search_finds_first_nonce_under_easy_target() {
    let j = job("20ffffff", vec![]);
    let t = prepare_job(&j, "f8002c90", "00000001").unwrap();
    let found = search_nonces(&t, 0, 1000).unwrap();
    let again = search_nonces(&t, 0, 1000).unwrap();
    let (nonce, hash) = match found {
        SearchOutcome::Found { nonce, hash } => (nonce, hash),
        SearchOutcome::Exhausted => panic!("nothing found"),
    };
    match again {
        SearchOutcome::Found { nonce: n2, hash: h2 } => {
            assert_eq!(n2, nonce);
            assert_eq!(h2, hash);
        }
        SearchOutcome::Exhausted => panic!("nothing found"),
    }
    assert!(hash_meets_target(&hash, &t.target));
    let header = create_block_header(&j.version, &j.prevhash, &t.merkle_root, &j.nbits, &j.ntime, &nonce_hex(nonce)).unwrap();
    assert_eq!(double_sha256(&header), hash);
    for earlier in 0..nonce {
        let h = create_block_header(&j.version, &j.prevhash, &t.merkle_root, &j.nbits, &j.ntime, &nonce_hex(earlier)).unwrap();
        assert!(!hash_meets_target(&double_sha256(&h), &t.target));
    }
}

#[test]
fn prepared_merkle_root_is_reversed_coinbase_hash() {
    let j = job("1d00ffff", vec![]);
    let t = prepare_job(&j, "f8002c90", "00000001").unwrap();
    let coinbase = [0x01u8, 0, 0, 0, 0xf8, 0x00, 0x2c, 0x90, 0, 0, 0, 1, 0xff, 0xff, 0xff, 0xff];
    let mut h = double_sha256(&coinbase);
    h.reverse();
    assert_eq!(t.merkle_root, hex(&h));
    assert_eq!(prepare_job(&j, "zz", "00000001").err(), Some(MinerError::Decode));
    assert_eq!(prepare_job(&job("2100ffff", vec![]), "f8002c90", "00000001").err(), Some(MinerError::InvalidTarget));
    assert_eq!(prepare_job(&job("1d00ffff", vec!["xyz".to_string()]), "f8002c90", "00000001").err(), Some(MinerError::Decode));
}

#[test]
fn search_reports_bad_template() {
    let j = job("1d00ffff", vec![]);
    let mut t = prepare_job(&j, "f8002c90", "00000001").unwrap();
    t.version = "qq".to_string();
    assert!(matches!(search_nonces(&t, 0, 10), Err(MinerError::Decode)));
    assert!(matches!(search_nonces(&t, 0, 0), Ok(SearchOutcome::Exhausted)));
}

#[test]
fn handshake_steps() {
    let address = "1BvBMSEYstWetqTFn5Au4m4GFg7xJaNVN2".to_string();
    let (s, a) = session_step(SessionState::Connecting, SessionEvent::Connected, &address);
    assert!(matches!(s, SessionState::AwaitingSubscribeResult));
    assert!(matches!(a, SessionAction::SendThenRead(Request::Subscribe)));
    let answer = b"{\"id\":1,\"result\":[[],\"f8002c90\",4],\"error\":null}\n{\"id\":2}".to_vec();
    let (s, a) = session_step(s, SessionEvent::Received(answer), &address);
    assert!(matches!(&a, SessionAction::SendThenRead(Request::Authorize { address: x }) if *x == address));
    let (s, a) = session_step(s, SessionEvent::Received(b"{\"id\":2,\"result\":true}\n{\"method\":\"mining.no".to_vec()), &address);
    assert!(matches!(a, SessionAction::Read));
    let rest = b"tify\",\"params\":[\"7\",\"ab\",\"01\",\"02\",[],\"20000000\",\"1d00ffff\",\"5f5e1000\",true]}\n".to_vec();
    let (s, a) = session_step(s, SessionEvent::Received(rest), &address);
    assert!(matches!(s, SessionState::Closed));
    match a {
        SessionAction::Mine { subscription, job } => {
            assert_eq!(subscription.extranonce1, "f8002c90");
            assert_eq!(job.job_id, "7");
            assert!(job.clean_jobs);
        }
        _ => panic!("expected a job"),
    }
}

#[test]
fn handshake_failures() {
    let address = "a".to_string();
    let (_, a) = session_step(SessionState::AwaitingSubscribeResult, SessionEvent::Received(b"garbage".to_vec()), &address);
    assert!(matches!(a, SessionAction::Fail(MinerError::Protocol)));
    let (s, _) = session_step(SessionState::AwaitingSubscribeResult, SessionEvent::Received(b"{\"result\":[0,\"e1\"]}".to_vec()), &address);
    let (_, a) = session_step(s, SessionEvent::Received(vec![]), &address);
    assert!(matches!(a, SessionAction::Fail(MinerError::ConnectionClosed)));
    let (_, a) = session_step(SessionState::Closed, SessionEvent::Connected, &address);
    assert!(matches!(a, SessionAction::Fail(MinerError::Protocol)));
}

#[test]
fn submission_fields() {
    let j = job("1d00ffff", vec![]);
    match submit_request(&"addr".to_string(), &j, &"0000abcd".to_string(), 255) {
        Request::Submit { address, job_id, extranonce2, ntime, nonce } => {
            assert_eq!(address, "addr");
            assert_eq!(job_id, "1");
            assert_eq!(extranonce2, "0000abcd");
            assert_eq!(ntime, "5f5e1000");
            assert_eq!(nonce, "000000ff");
        }
        _ => panic!("expected a submission"),
    }
}

#[test]
fn request_wire_lines() {
    assert_eq!(request_line(&Request::Subscribe), "{\"id\":1,\"method\":\"mining.subscribe\",\"params\":[]}\n");
    assert_eq!(
        request_line(&Request::Authorize { address: "addr".to_string() }),
        "{\"id\":2,\"method\":\"mining.authorize\",\"params\":[\"addr\",\"password\"]}\n"
    );
    let j = job("1d00ffff", vec![]);
    let submit = submit_request(&"addr".to_string(), &j, &"0000abcd".to_string(), 1);
    assert_eq!(
        request_line(&submit),
        "{\"id\":1,\"method\":\"mining.submit\",\"params\":[\"addr\",\"1\",\"0000abcd\",\"5f5e1000\",\"00000001\"]}\n"
    );
}

#[test]
fn header_rejects_over_width_fields() {
    let long_version = create_block_header("0000000001", "", "", "1d00ffff", "00000000", "00000000");
    assert_eq!(long_version, Err(MinerError::Decode));
    let long_prevhash = "0".repeat(66);
    assert_eq!(
        create_block_header("1", &long_prevhash, "", "1d00ffff", "00000000", "00000000"),
        Err(MinerError::Decode)
    );
    let full = "ab".repeat(32);
    let h = create_block_header("ffffffff", &full, &full, "1d00ffff", "5f5e1000", "ffffffff").unwrap();
    assert_eq!(h.len(), 80);
    assert_eq!(create_block_header("", "", "", "", "", "").map(|h| h.len()), Ok(80));
}

#[test]
fn ascii_address_rules() {
    assert!(validate_bitcoin_address("abcdefghijkmnopqrstuvwxyz1"));
    assert!(!validate_bitcoin_address("abcdefghijkmnopqrstuvwxyzl"));
    assert!(!validate_bitcoin_address("ABCDEFGHJKLMNOPQRSTUVWXYZ2"));
    assert!(!validate_bitcoin_address("abcdefghijkmnopqrstuvwxyz1abcdefghij"));
}

#[test]
fn batch_decisions() {
    let mut c = MiningConfig::new("addr".to_string(), false, None);
    c.update_height(100);
    assert_eq!(before_batch(&c, 100, 7), MineAction::Search { first: 7 });
    c.update_height(101);
    assert_eq!(before_batch(&c, 100, 7), MineAction::Restart);
    assert_eq!(after_batch(&SearchOutcome::Exhausted, 0, 1000), MineAction::Search { first: 1000 });
    assert_eq!(after_batch(&SearchOutcome::Exhausted, u32::MAX - 1, 1000), MineAction::Search { first: 998 });
    let found = SearchOutcome::Found { nonce: 42, hash: vec![0; 32] };
    assert_eq!(after_batch(&found, 0, 1000), MineAction::Submit { nonce: 42 });
}

#[test]
fn restart_pause_after_failure() {
    assert_eq!(restart_pause_ms(true), 100);
    assert_eq!(restart_pause_ms(false), 0);
}

#[test]
fn submitted_nonce_text_matches_search_text() {
    for n in [0u32, 1, 0xdeadbeef, u32::MAX, 0x00ff00ff] {
        assert_eq!(nonce_hex(n).into_bytes(), nonce_digits(n));
    }
}
