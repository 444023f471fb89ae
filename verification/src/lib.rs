//! Core of a gamified cycling-habit backend: a token codec and credential
//! verifier for short-lived identity assertions, a leveling engine mapping
//! experience points to level bands, and a store whose operations keep the
//! reward ledger, user totals and levels consistent.

pub mod credentials;
pub mod error;
pub mod level;
pub mod models;
pub mod store;
pub mod text;
pub mod token;

pub use credentials::{extract_user_id_from_headers, refresh_token, strip_bearer};
pub use error::AppError;
pub use level::compute_level;
pub use models::{KakaoUser, LevelResponse, OAuthRequest, OAuthResponse, Quiz, QuizAttempt,
    QuizAttemptRequest, QuizAttemptResponse, QuizStatusResponse, RefreshResponse,
    RefreshTokenRecord, Reward, ScoreUpdateRequest, User, UserProfile};
pub use store::Store;
pub use text::check_answer;
pub use token::{create_access_token, create_refresh_token, issue_token, parse_token, JwtClaims};
