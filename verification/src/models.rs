//! Data carried through the core: the user aggregate, the immutable ledger
//! and attempt records, quizzes, refresh-token rows, and the request and
//! response shapes of the endpoints.

use vstd::prelude::*;

verus! {

/// A user row: external identity, profile fields, and the running totals
/// the reward ledger and the leveling engine keep consistent.
#[derive(Debug)]
pub struct User {
    pub id: i64,
    pub kakao_id: String,
    pub username: String,
    pub email: String,
    pub profile_image_url: Option<String>,
    pub experience_points: i64,
    pub points: i64,
    pub level: i64,
    pub level_name: String,
    pub benefits: String,
    pub description: String,
    pub created_at: String,
}

/// A user's profile as returned to the caller.
#[derive(Debug)]
pub struct UserProfile {
    pub id: i64,
    pub username: String,
    pub email: String,
    pub profile_image_url: Option<String>,
    pub experience_points: i64,
    pub points: i64,
    pub level: i64,
    pub level_name: String,
    pub benefits: String,
    pub description: String,
    pub created_at: String,
}

/// The external identity a successful OAuth exchange yields.
#[derive(Debug)]
pub struct KakaoUser {
    pub kakao_id: String,
    pub nickname: String,
    pub email: String,
    pub profile_image: Option<String>,
}

/// Body of the login request: the authorization code to exchange.
#[derive(Debug)]
pub struct OAuthRequest {
    pub code: String,
}

/// Body of the login response: the access token.
#[derive(Debug)]
pub struct OAuthResponse {
    pub access_token: String,
}

/// Body of the refresh response: the fresh access token.
#[derive(Debug)]
pub struct RefreshResponse {
    pub access_token: String,
}

/// A persisted refresh-token row: owning user, opaque token string and
/// absolute expiry.
#[derive(Debug)]
pub struct RefreshTokenRecord {
    pub id: i64,
    pub user_id: i64,
    pub token: String,
    pub expires_at: String,
}

/// A quiz: question, ordered answer choices (empty for free text), the
/// correct answer string, explanatory texts, display date and kind tag.
#[derive(Debug)]
pub struct Quiz {
    pub id: i64,
    pub question: String,
    pub answers: Vec<String>,
    pub correct_answer: String,
    pub explanation: String,
    pub hint_link: String,
    pub hint_description: String,
    pub display_date: String,
    pub quiz_type: String,
}

/// Body of a quiz attempt request.
#[derive(Debug)]
pub struct QuizAttemptRequest {
    pub answer: String,
}

/// Outcome of a quiz attempt.
#[derive(Debug, PartialEq, Eq, Structural)]
pub struct QuizAttemptResponse {
    pub is_correct: bool,
    pub points_earned: i64,
    pub experience_earned: i64,
    pub reward_given: bool,
}

/// Whether the caller already attempted today's quiz, and with what outcome.
#[derive(Debug, PartialEq, Eq, Structural)]
pub struct QuizStatusResponse {
    pub attempted: bool,
    pub is_correct: bool,
}

/// An immutable record of one quiz attempt.
#[derive(Debug)]
pub struct QuizAttempt {
    pub id: i64,
    pub user_id: i64,
    pub quiz_id: i64,
    pub answer: String,
    pub is_correct: bool,
    pub points_earned: i64,
    pub experience_earned: i64,
    pub created_at: String,
}

/// An immutable ledger entry: one experience grant.
#[derive(Debug)]
pub struct Reward {
    pub id: i64,
    pub user_id: i64,
    pub experience_points: i64,
    pub reward_reason: String,
    pub source_type: String,
    pub created_at: String,
}

/// Body of a manual score adjustment.
#[derive(Debug)]
pub struct ScoreUpdateRequest {
    pub experience_points: i64,
    pub reward_reason: String,
}

/// A user's level as returned to the caller.
#[derive(Debug)]
pub struct LevelResponse {
    pub level: i64,
    pub level_name: String,
    pub experience_points: i64,
}

/// View of an optional string.
pub open spec fn opt_str_view(o: Option<String>) -> Option<Seq<char>> {
    match o {
        Some(s) => Some(s@),
        None => None,
    }
}

/// Copy an optional string.
pub fn clone_opt_str(o: &Option<String>) -> (r: Option<String>)
    ensures
        opt_str_view(r) == opt_str_view(*o),
{
    match o {
        Some(s) => Some(s.clone()),
        None => None,
    }
}

} // verus!
