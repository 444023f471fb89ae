use std::time::{SystemTime, UNIX_EPOCH};

use likebike::{check_answer, parse_token, AppError, KakaoUser, QuizAttemptResponse, Store};

fn unix_now() -> u64 {
    SystemTime::now().duration_since(UNIX_EPOCH).unwrap().as_secs()
}

const SECRET: &str = "test-secret-key";
const NOW: &str = "2025-06-01T09:00:00+00:00";
const EXPIRY: &str = "2025-06-08T09:00:00+00:00";

fn kakao(id: &str) -> KakaoUser {
    KakaoUser {
        kakao_id: id.to_string(),
        nickname: "데모유저".to_string(),
        email: "demo@likebike.kr".to_string(),
        profile_image: None,
    }
}

fn login(store: &mut Store, id: &str) -> i64 {
    let resp = store.oauth_login(&kakao(id), NOW, EXPIRY, SECRET).unwrap();
    parse_token(&resp.access_token, SECRET, unix_now()).unwrap().sub
}

fn add_speed_quiz(store: &mut Store, date: &str) -> i64 {
    store
        .add_quiz(
            "자전거 도로에서의 최고 속도 제한은?".to_string(),
            vec![
                "시속 20km".to_string(),
                "시속 30km".to_string(),
                "시속 40km".to_string(),
                "제한 없음".to_string(),
            ],
            "시속 20km".to_string(),
            "도로교통법에 따르면 자전거도로에서의 최고 속도는 시속 20km입니다.".to_string(),
            "".to_string(),
            "도로교통법 제19조를 확인해보세요.".to_string(),
            date.to_string(),
            "select".to_string(),
        )
        .unwrap()
}

#[test]
fn login_creates_user_with_defaults() {
    let mut store = Store::new();
    let uid = login(&mut store, "demo_1");
    let profile = store.get_profile(uid).unwrap();
    assert_eq!(profile.experience_points, 0);
    assert_eq!(profile.points, 0);
    assert_eq!(profile.level, 1);
    assert_eq!(profile.level_name, "관심인");
    assert_eq!(profile.username, "데모유저");
    assert_eq!(store.refresh_tokens.len(), 1);
}

#[test]
fn login_twice_reuses_user_and_adds_session() {
    let mut store = Store::new();
    let a = login(&mut store, "demo_1");
    // A second login in the same second mints a byte-identical refresh token
    // (same claims, deterministic signature) and then hits the token
    // uniqueness constraint; across a second boundary it succeeds and adds a
    // second session row. Either way the user row is reused, never duplicated.
    match store.oauth_login(&kakao("demo_1"), NOW, EXPIRY, SECRET) {
        Ok(resp) => {
            let b = parse_token(&resp.access_token, SECRET, unix_now()).unwrap().sub;
            assert_eq!(a, b);
            assert_eq!(store.refresh_tokens.len(), 2);
        }
        Err(AppError::Internal(_)) => {
            assert_eq!(store.refresh_tokens.len(), 1);
        }
        Err(e) => panic!("unexpected login failure: {:?}", e),
    }
    assert_eq!(store.users.len(), 1);
}

#[test]
fn logout_twice_is_idempotent() {
    let mut store = Store::new();
    let resp = store.oauth_login(&kakao("demo_1"), NOW, EXPIRY, SECRET).unwrap();
    let header = format!("Bearer {}", resp.access_token);
    let first = store.logout(Some(&header), SECRET);
    assert_eq!(first, 1);
    let second = store.logout(Some(&header), SECRET);
    assert_eq!(second, 0);
    assert_eq!(store.refresh_tokens.len(), 0);
}

#[test]
fn refresh_session_accepts_stored_refresh_token() {
    let mut store = Store::new();
    let resp = store.oauth_login(&kakao("demo_1"), NOW, EXPIRY, SECRET).unwrap();
    let uid = parse_token(&resp.access_token, SECRET, unix_now()).unwrap().sub;
    let stored = store.refresh_tokens[0].token.clone();
    let header = format!("Bearer {}", stored);
    let fresh = store
        .refresh_session(Some(&header), SECRET, "2025-06-02T09:00:00+00:00")
        .unwrap();
    let claims = parse_token(&fresh.access_token, SECRET, unix_now()).unwrap();
    assert_eq!(claims.sub, uid);
    assert_eq!(claims.token_type, "access");
    assert_eq!(claims.exp, claims.iat + 15 * 60);
}

#[test]
fn refresh_session_rejects_access_kind_token() {
    let mut store = Store::new();
    let resp = store.oauth_login(&kakao("demo_1"), NOW, EXPIRY, SECRET).unwrap();
    let header = format!("Bearer {}", resp.access_token);
    let e = store
        .refresh_session(Some(&header), SECRET, "2025-06-02T09:00:00+00:00")
        .unwrap_err();
    assert!(matches!(e, AppError::Unauthorized(_)));
}

#[test]
fn refresh_session_rejects_revoked_token() {
    let mut store = Store::new();
    let resp = store.oauth_login(&kakao("demo_1"), NOW, EXPIRY, SECRET).unwrap();
    let stored = store.refresh_tokens[0].token.clone();
    let access_header = format!("Bearer {}", resp.access_token);
    assert_eq!(store.logout(Some(&access_header), SECRET), 1);
    let header = format!("Bearer {}", stored);
    let e = store
        .refresh_session(Some(&header), SECRET, "2025-06-02T09:00:00+00:00")
        .unwrap_err();
    assert!(matches!(e, AppError::Unauthorized(_)));
}

#[test]
fn refresh_session_rejects_expired_row() {
    let mut store = Store::new();
    store.oauth_login(&kakao("demo_1"), NOW, EXPIRY, SECRET).unwrap();
    let stored = store.refresh_tokens[0].token.clone();
    let header = format!("Bearer {}", stored);
    // The stored row's absolute expiry has passed at this `now`.
    let e = store
        .refresh_session(Some(&header), SECRET, "2025-06-09T09:00:00+00:00")
        .unwrap_err();
    assert!(matches!(e, AppError::Unauthorized(_)));
    assert!(store
        .refresh_session(None, SECRET, "2025-06-02T09:00:00+00:00")
        .is_err());
}

#[test]
fn logout_without_credential_succeeds_and_deletes_nothing() {
    let mut store = Store::new();
    login(&mut store, "demo_1");
    assert_eq!(store.logout(None, SECRET), 0);
    assert_eq!(store.logout(Some("Bearer junk"), SECRET), 0);
    assert_eq!(store.refresh_tokens.len(), 1);
}

#[test]
fn ledger_reconciles_after_grants() {
    let mut store = Store::new();
    let uid = login(&mut store, "demo_1");
    store.grant(uid, 30, "보상", "quiz", NOW).unwrap();
    store.grant(uid, 50, "보상", "manual", NOW).unwrap();
    store.grant(uid, 40, "보상", "quiz", NOW).unwrap();
    let profile = store.get_profile(uid).unwrap();
    assert_eq!(profile.experience_points, 120);
    assert_eq!(profile.points, 120);
    let total: i64 = store.get_rewards(uid).iter().map(|r| r.experience_points).sum();
    assert_eq!(total, profile.experience_points);
    assert_eq!(profile.level, 2);
    assert_eq!(profile.level_name, "입문자");
}

#[test]
fn repeated_grants_accumulate_exactly() {
    let mut store = Store::new();
    let uid = login(&mut store, "demo_1");
    for _ in 0..5 {
        store.grant(uid, 10, "보상", "quiz", NOW).unwrap();
    }
    let profile = store.get_profile(uid).unwrap();
    assert_eq!(profile.experience_points, 50);
    assert_eq!(profile.points, 50);
}

#[test]
fn grant_to_missing_user_is_not_found() {
    let mut store = Store::new();
    let e = store.grant(12345, 10, "보상", "quiz", NOW).unwrap_err();
    assert!(matches!(e, AppError::NotFound(_)));
}

#[test]
fn negative_score_update_is_rejected() {
    let mut store = Store::new();
    let uid = login(&mut store, "demo_1");
    let e = store.update_score(uid, -10, "감점", NOW).unwrap_err();
    assert!(matches!(e, AppError::BadRequest(_)));
    assert_eq!(store.get_profile(uid).unwrap().experience_points, 0);
    assert_eq!(store.get_rewards(uid).len(), 0);
}

#[test]
fn score_update_records_manual_source() {
    let mut store = Store::new();
    let uid = login(&mut store, "demo_1");
    store.update_score(uid, 25, "수동 보상", NOW).unwrap();
    let rewards = store.get_rewards(uid);
    assert_eq!(rewards.len(), 1);
    assert_eq!(rewards[0].experience_points, 25);
    assert_eq!(rewards[0].reward_reason, "수동 보상");
    assert_eq!(rewards[0].source_type, "manual");
    assert_eq!(store.get_level(uid).unwrap().experience_points, 25);
}

#[test]
fn grant_overflow_is_internal_and_leaves_state() {
    let mut store = Store::new();
    let uid = login(&mut store, "demo_1");
    store.grant(uid, i64::MAX, "보상", "manual", NOW).unwrap();
    let e = store.grant(uid, 1, "보상", "manual", NOW).unwrap_err();
    assert!(matches!(e, AppError::Internal(_)));
    assert_eq!(store.get_profile(uid).unwrap().experience_points, i64::MAX);
    assert_eq!(store.get_rewards(uid).len(), 1);
}

#[test]
fn correct_answer_with_whitespace_earns_reward() {
    let mut store = Store::new();
    let uid = login(&mut store, "demo_1");
    let qid = add_speed_quiz(&mut store, "2025-06-01");
    let resp = store.attempt_quiz(uid, qid, " 시속 20km ", NOW).unwrap();
    assert_eq!(
        resp,
        QuizAttemptResponse {
            is_correct: true,
            points_earned: 10,
            experience_earned: 10,
            reward_given: true,
        }
    );
    let rewards = store.get_rewards(uid);
    assert_eq!(rewards.len(), 1);
    assert_eq!(rewards[0].reward_reason, "퀴즈 정답");
    assert_eq!(rewards[0].source_type, "quiz");
    assert_eq!(rewards[0].experience_points, 10);
    let profile = store.get_profile(uid).unwrap();
    assert_eq!(profile.experience_points, 10);
    assert_eq!(profile.level, 1);
    assert_eq!(profile.level_name, "관심인");
    assert_eq!(store.attempts.len(), 1);
    assert_eq!(store.attempts[0].answer, "시속 20km");
}

#[test]
fn correct_answer_recomputes_level() {
    let mut store = Store::new();
    let uid = login(&mut store, "demo_1");
    store.grant(uid, 95, "보상", "manual", NOW).unwrap();
    let qid = add_speed_quiz(&mut store, "2025-06-01");
    let resp = store.attempt_quiz(uid, qid, "시속 20km", NOW).unwrap();
    assert!(resp.is_correct);
    let profile = store.get_profile(uid).unwrap();
    assert_eq!(profile.experience_points, 105);
    assert_eq!(profile.level, 2);
    assert_eq!(profile.level_name, "입문자");
}

#[test]
fn wrong_answer_records_attempt_without_reward() {
    let mut store = Store::new();
    let uid = login(&mut store, "demo_1");
    let qid = add_speed_quiz(&mut store, "2025-06-01");
    let resp = store.attempt_quiz(uid, qid, "시속 30km", NOW).unwrap();
    assert_eq!(
        resp,
        QuizAttemptResponse {
            is_correct: false,
            points_earned: 0,
            experience_earned: 0,
            reward_given: false,
        }
    );
    assert_eq!(store.get_rewards(uid).len(), 0);
    assert_eq!(store.get_profile(uid).unwrap().experience_points, 0);
    assert_eq!(store.attempts.len(), 1);
    assert!(!store.attempts[0].is_correct);
}

#[test]
fn attempt_on_missing_quiz_is_not_found() {
    let mut store = Store::new();
    let uid = login(&mut store, "demo_1");
    let e = store.attempt_quiz(uid, 999, "시속 20km", NOW).unwrap_err();
    assert!(matches!(e, AppError::NotFound(_)));
    assert_eq!(store.attempts.len(), 0);
}

#[test]
fn answer_match_is_case_insensitive_and_trimmed() {
    assert!(check_answer(" 시속 20km ", "시속 20km"));
    assert!(check_answer("o", "O"));
    assert!(check_answer("\tOK\n", "ok"));
    assert!(check_answer("", ""));
    assert!(check_answer("   ", ""));
    assert!(!check_answer("시속 30km", "시속 20km"));
    assert!(!check_answer("시속20km", "시속 20km"));
}

#[test]
fn quiz_status_tracks_latest_attempt() {
    let mut store = Store::new();
    let uid = login(&mut store, "demo_1");
    let today = "2025-06-01";
    let status = store.get_quiz_status(uid, today);
    assert!(!status.attempted);
    assert!(!status.is_correct);

    let qid = add_speed_quiz(&mut store, today);
    let status = store.get_quiz_status(uid, today);
    assert!(!status.attempted);

    store.attempt_quiz(uid, qid, "시속 30km", NOW).unwrap();
    let status = store.get_quiz_status(uid, today);
    assert!(status.attempted);
    assert!(!status.is_correct);

    store.attempt_quiz(uid, qid, "시속 20km", NOW).unwrap();
    let status = store.get_quiz_status(uid, today);
    assert!(status.attempted);
    assert!(status.is_correct);
}

#[test]
fn quiz_status_ignores_other_days() {
    let mut store = Store::new();
    let uid = login(&mut store, "demo_1");
    let qid = add_speed_quiz(&mut store, "2025-06-01");
    store.attempt_quiz(uid, qid, "시속 20km", NOW).unwrap();
    let status = store.get_quiz_status(uid, "2025-06-02");
    assert!(!status.attempted);
}

#[test]
fn get_quizzes_lists_most_recent_first() {
    let mut store = Store::new();
    let q1 = add_speed_quiz(&mut store, "2025-06-01");
    let q2 = add_speed_quiz(&mut store, "2025-06-02");
    let q3 = add_speed_quiz(&mut store, "2025-05-30");
    assert_ne!(q1, q2);
    let quizzes = store.get_quizzes();
    assert_eq!(quizzes.len(), 3);
    assert_eq!(quizzes[0].id, q2);
    assert_eq!(quizzes[1].id, q1);
    assert_eq!(quizzes[2].id, q3);
    assert_eq!(quizzes[1].correct_answer, "시속 20km");
    assert_eq!(quizzes[1].answers.len(), 4);
}

#[test]
fn profile_and_level_missing_user() {
    let store = Store::new();
    assert!(matches!(store.get_profile(1).unwrap_err(), AppError::NotFound(_)));
    assert!(matches!(store.get_level(1).unwrap_err(), AppError::NotFound(_)));
}

#[test]
fn rewards_are_listed_most_recent_first() {
    let mut store = Store::new();
    let uid = login(&mut store, "demo_1");
    let other = login(&mut store, "demo_2");
    store.grant(uid, 10, "하나", "quiz", NOW).unwrap();
    store.grant(other, 99, "남", "quiz", NOW).unwrap();
    store.grant(uid, 20, "둘", "manual", NOW).unwrap();
    let rewards = store.get_rewards(uid);
    assert_eq!(rewards.len(), 2);
    assert_eq!(rewards[0].reward_reason, "둘");
    assert_eq!(rewards[1].reward_reason, "하나");
    assert!(rewards.iter().all(|r| r.user_id == uid));
}
