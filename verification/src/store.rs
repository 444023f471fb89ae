//! The shared state the handlers cooperate on: users, refresh tokens,
//! quizzes, attempts and the append-only reward ledger, with the invariant
//! that every user's totals reconcile against the ledger and that level and
//! level name are the leveling engine's value for the current experience.
//!
//! Every operation is a read-modify-write on one `Store` value; the process
//! serializes them behind one exclusion boundary, so each contract here
//! describes one atomic step of the linear history.

use vstd::prelude::*;
use vstd::string::StringSliceAdditionalSpecFns;

use crate::credentials::{bearer_token, extract_user_id_from_headers, str_eq, strip_bearer,
    verified_subject};
use crate::error::AppError;
use crate::level::{compute_level, spec_level, spec_level_name};
use crate::models::{clone_opt_str, opt_str_view, KakaoUser, LevelResponse, OAuthResponse, Quiz,
    QuizAttempt, QuizAttemptResponse, QuizStatusResponse, Reward, RefreshTokenRecord, User,
    UserProfile};
use crate::text::{answers_match, check_answer, lemma_lex_total, lemma_lex_trans, lex_le, str_le,
    trim_bytes, trim_str};
use crate::models::RefreshResponse;
use crate::token::{bytes_of, create_access_token, create_refresh_token, current_timestamp,
    jwt_claims_of, parse_token, valid_token_for, ACCESS_TTL_SECS, REFRESH_TTL_SECS};

verus! {

/// The persisted state of the core.
pub struct Store {
    pub users: Vec<User>,
    pub refresh_tokens: Vec<RefreshTokenRecord>,
    pub quizzes: Vec<Quiz>,
    pub attempts: Vec<QuizAttempt>,
    pub rewards: Vec<Reward>,
    pub next_user_id: i64,
    pub next_quiz_id: i64,
    pub next_attempt_id: i64,
    pub next_reward_id: i64,
    pub next_refresh_id: i64,
}

/// Sum of the ledger deltas recorded for one user.
pub open spec fn sum_rewards_for(s: Seq<Reward>, uid: i64) -> int
    decreases s.len(),
{
    if s.len() == 0 {
        0
    } else {
        sum_rewards_for(s.drop_last(), uid) + if s.last().user_id == uid {
            s.last().experience_points as int
        } else {
            0
        }
    }
}

/// Whether some user has the given id.
pub open spec fn has_user(users: Seq<User>, uid: i64) -> bool {
    exists|i: int| 0 <= i < users.len() && users[i].id == uid
}

/// Index of the user with the given id (unique under the store invariant).
pub open spec fn user_index(users: Seq<User>, uid: i64) -> int {
    choose|i: int| 0 <= i < users.len() && users[i].id == uid
}

/// Whether some user has the given external id.
pub open spec fn has_kakao(users: Seq<User>, kakao_id: Seq<char>) -> bool {
    exists|i: int| 0 <= i < users.len() && users[i].kakao_id@ == kakao_id
}

/// Index of the user with the given external id (unique under the store
/// invariant).
pub open spec fn kakao_index(users: Seq<User>, kakao_id: Seq<char>) -> int {
    choose|i: int| 0 <= i < users.len() && users[i].kakao_id@ == kakao_id
}

/// Whether some quiz has the given id.
pub open spec fn has_quiz(quizzes: Seq<Quiz>, qid: i64) -> bool {
    exists|i: int| 0 <= i < quizzes.len() && quizzes[i].id == qid
}

/// Index of the quiz with the given id (unique under the store invariant).
pub open spec fn quiz_index(quizzes: Seq<Quiz>, qid: i64) -> int {
    choose|i: int| 0 <= i < quizzes.len() && quizzes[i].id == qid
}

/// A user row is consistent: totals reconcile against the ledger, and level
/// and level name are the leveling engine's values for the experience.
pub open spec fn user_ok(u: User, rewards: Seq<Reward>, next_user_id: i64) -> bool {
    &&& 1 <= u.id < next_user_id
    &&& u.experience_points >= 0
    &&& u.points == u.experience_points
    &&& u.experience_points == sum_rewards_for(rewards, u.id)
    &&& u.level == spec_level(u.experience_points as int)
    &&& u.level_name@ == spec_level_name(u.experience_points as int)
}

impl Store {
    /// The store invariant, established by `new` and preserved by every
    /// operation.
    pub open spec fn wf(self) -> bool {
        &&& 1 <= self.next_user_id
        &&& 1 <= self.next_quiz_id
        &&& forall|i: int|
            0 <= i < self.users@.len() ==> user_ok(
                #[trigger] self.users@[i],
                self.rewards@,
                self.next_user_id,
            )
        &&& forall|i: int, j: int|
            #![trigger self.users@[i].id, self.users@[j].id]
            0 <= i < j < self.users@.len() ==> self.users@[i].id != self.users@[j].id
        &&& forall|i: int, j: int|
            #![trigger self.users@[i].kakao_id, self.users@[j].kakao_id]
            0 <= i < j < self.users@.len() ==> self.users@[i].kakao_id@
                != self.users@[j].kakao_id@
        &&& forall|k: int|
            0 <= k < self.rewards@.len() ==> (#[trigger] self.rewards@[k]).experience_points >= 0
                && has_user(self.users@, self.rewards@[k].user_id)
        &&& forall|i: int, j: int|
            #![trigger self.refresh_tokens@[i].token, self.refresh_tokens@[j].token]
            0 <= i < j < self.refresh_tokens@.len() ==> self.refresh_tokens@[i].token@
                != self.refresh_tokens@[j].token@
        &&& forall|i: int|
            0 <= i < self.quizzes@.len() ==> 1 <= (#[trigger] self.quizzes@[i]).id
                < self.next_quiz_id
        &&& forall|i: int, j: int|
            #![trigger self.quizzes@[i].id, self.quizzes@[j].id]
            0 <= i < j < self.quizzes@.len() ==> self.quizzes@[i].id != self.quizzes@[j].id
        &&& forall|i: int, j: int|
            #![trigger self.quizzes@[i].display_date, self.quizzes@[j].display_date]
            0 <= i < j < self.quizzes@.len() ==> lex_le(
                bytes_of(self.quizzes@[j].display_date@),
                bytes_of(self.quizzes@[i].display_date@),
            )
    }

    /// An empty store; every id counter starts at 1.
    pub fn new() -> (r: Store)
        ensures
            r.wf(),
            r.users@.len() == 0,
            r.refresh_tokens@.len() == 0,
            r.quizzes@.len() == 0,
            r.attempts@.len() == 0,
            r.rewards@.len() == 0,
            r.next_user_id == 1,
            r.next_quiz_id == 1,
            r.next_attempt_id == 1,
            r.next_reward_id == 1,
            r.next_refresh_id == 1,
    {
        Store {
            users: Vec::new(),
            refresh_tokens: Vec::new(),
            quizzes: Vec::new(),
            attempts: Vec::new(),
            rewards: Vec::new(),
            next_user_id: 1,
            next_quiz_id: 1,
            next_attempt_id: 1,
            next_reward_id: 1,
            next_refresh_id: 1,
        }
    }

    /// Index of the user with the given id.
    fn find_user(&self, uid: i64) -> (r: Option<usize>)
        ensures
            match r {
                Some(i) => 0 <= i < self.users@.len() && self.users@[i as int].id == uid,
                None => !has_user(self.users@, uid),
            },
    {
        let n = self.users.len();
        let mut i: usize = 0;
        while i < n
            invariant
                n == self.users@.len(),
                0 <= i <= n,
                forall|j: int| 0 <= j < i ==> self.users@[j].id != uid,
            decreases n - i,
        {
            if self.users[i].id == uid {
                return Some(i);
            }
            i += 1;
        }
        None
    }

    /// Index of the quiz with the given id.
    fn find_quiz(&self, qid: i64) -> (r: Option<usize>)
        ensures
            match r {
                Some(i) => 0 <= i < self.quizzes@.len() && self.quizzes@[i as int].id == qid,
                None => !has_quiz(self.quizzes@, qid),
            },
    {
        let n = self.quizzes.len();
        let mut i: usize = 0;
        while i < n
            invariant
                n == self.quizzes@.len(),
                0 <= i <= n,
                forall|j: int| 0 <= j < i ==> self.quizzes@[j].id != qid,
            decreases n - i,
        {
            if self.quizzes[i].id == qid {
                return Some(i);
            }
            i += 1;
        }
        None
    }
}

/// Under distinct ids, `user_index` is the index of any row with that id.
pub proof fn lemma_user_index(s: Store, uid: i64, i: int)
    requires
        s.wf(),
        0 <= i < s.users@.len(),
        s.users@[i].id == uid,
    ensures
        has_user(s.users@, uid),
        user_index(s.users@, uid) == i,
{
    assert(has_user(s.users@, uid));
    let j = user_index(s.users@, uid);
    if j < i {
        assert(s.users@[j].id != s.users@[i].id);
    } else if i < j {
        assert(s.users@[i].id != s.users@[j].id);
    }
}

/// Under distinct external ids, `kakao_index` is the index of any row with
/// that external id.
pub proof fn lemma_kakao_index(s: Store, kakao_id: Seq<char>, i: int)
    requires
        s.wf(),
        0 <= i < s.users@.len(),
        s.users@[i].kakao_id@ == kakao_id,
    ensures
        has_kakao(s.users@, kakao_id),
        kakao_index(s.users@, kakao_id) == i,
{
    assert(has_kakao(s.users@, kakao_id));
    let j = kakao_index(s.users@, kakao_id);
    if j < i {
        assert(s.users@[j].kakao_id@ != s.users@[i].kakao_id@);
    } else if i < j {
        assert(s.users@[i].kakao_id@ != s.users@[j].kakao_id@);
    }
}

/// Under distinct ids, `quiz_index` is the index of any quiz with that id.
pub proof fn lemma_quiz_index(s: Store, qid: i64, i: int)
    requires
        s.wf(),
        0 <= i < s.quizzes@.len(),
        s.quizzes@[i].id == qid,
    ensures
        has_quiz(s.quizzes@, qid),
        quiz_index(s.quizzes@, qid) == i,
{
    assert(has_quiz(s.quizzes@, qid));
    let j = quiz_index(s.quizzes@, qid);
    if j < i {
        assert(s.quizzes@[j].id != s.quizzes@[i].id);
    } else if i < j {
        assert(s.quizzes@[i].id != s.quizzes@[j].id);
    }
}

/// Appending one ledger row adds its delta to its user's sum and leaves
/// every other user's sum unchanged.
pub proof fn lemma_sum_push(s: Seq<Reward>, r: Reward, uid: i64)
    ensures
        sum_rewards_for(s.push(r), uid) == sum_rewards_for(s, uid) + if r.user_id == uid {
            r.experience_points as int
        } else {
            0
        },
{
    assert(s.push(r).drop_last() =~= s);
    assert(s.push(r).last() == r);
}

/// A user no ledger row names has sum zero.
pub proof fn lemma_sum_zero(s: Seq<Reward>, uid: i64)
    requires
        forall|k: int| 0 <= k < s.len() ==> (#[trigger] s[k]).user_id != uid,
    ensures
        sum_rewards_for(s, uid) == 0,
    decreases s.len(),
{
    if s.len() > 0 {
        assert(forall|k: int|
            0 <= k < s.drop_last().len() ==> (#[trigger] s.drop_last()[k]).user_id != uid);
        lemma_sum_zero(s.drop_last(), uid);
    }
}

/// A user's profile as stored.
pub open spec fn profile_matches(p: UserProfile, u: User) -> bool {
    &&& p.id == u.id
    &&& p.username@ == u.username@
    &&& p.email@ == u.email@
    &&& opt_str_view(p.profile_image_url) == opt_str_view(u.profile_image_url)
    &&& p.experience_points == u.experience_points
    &&& p.points == u.points
    &&& p.level == u.level
    &&& p.level_name@ == u.level_name@
    &&& p.benefits@ == u.benefits@
    &&& p.description@ == u.description@
    &&& p.created_at@ == u.created_at@
}

impl Store {
    /// Profile of the given user; `NotFound` when the user is absent.
    pub fn get_profile(&self, user_id: i64) -> (r: Result<UserProfile, AppError>)
        requires
            self.wf(),
        ensures
            r is Ok <==> has_user(self.users@, user_id),
            r matches Ok(p) ==> profile_matches(p, self.users@[user_index(self.users@, user_id)]),
            r matches Err(e) ==> e is NotFound,
    {
        let i = match self.find_user(user_id) {
            Some(i) => i,
            None => {
                return Err(AppError::NotFound("User not found".to_owned()));
            },
        };
        proof {
            lemma_user_index(*self, user_id, i as int);
        }
        let u = &self.users[i];
        Ok(
            UserProfile {
                id: u.id,
                username: u.username.clone(),
                email: u.email.clone(),
                profile_image_url: clone_opt_str(&u.profile_image_url),
                experience_points: u.experience_points,
                points: u.points,
                level: u.level,
                level_name: u.level_name.clone(),
                benefits: u.benefits.clone(),
                description: u.description.clone(),
                created_at: u.created_at.clone(),
            },
        )
    }

    /// Level, level name and experience of the given user; `NotFound` when
    /// the user is absent.
    pub fn get_level(&self, user_id: i64) -> (r: Result<LevelResponse, AppError>)
        requires
            self.wf(),
        ensures
            r is Ok <==> has_user(self.users@, user_id),
            r matches Ok(l) ==> {
                let u = self.users@[user_index(self.users@, user_id)];
                &&& l.level == u.level
                &&& l.level_name@ == u.level_name@
                &&& l.experience_points == u.experience_points
            },
            r matches Err(e) ==> e is NotFound,
    {
        let i = match self.find_user(user_id) {
            Some(i) => i,
            None => {
                return Err(AppError::NotFound("User not found".to_owned()));
            },
        };
        proof {
            lemma_user_index(*self, user_id, i as int);
        }
        let u = &self.users[i];
        Ok(
            LevelResponse {
                level: u.level,
                level_name: u.level_name.clone(),
                experience_points: u.experience_points,
            },
        )
    }

    /// All quizzes, ordered by display date, most recent first (the order
    /// the store invariant keeps them in).
    pub fn get_quizzes(&self) -> (r: &Vec<Quiz>)
        ensures
            r@ == self.quizzes@,
    {
        &self.quizzes
    }
}

/// Identity and profile fields of a user row are unchanged.
pub open spec fn user_static_eq(u: User, v: User) -> bool {
    &&& v.id == u.id
    &&& v.kakao_id@ == u.kakao_id@
    &&& v.username@ == u.username@
    &&& v.email@ == u.email@
    &&& opt_str_view(v.profile_image_url) == opt_str_view(u.profile_image_url)
    &&& v.benefits@ == u.benefits@
    &&& v.description@ == u.description@
    &&& v.created_at@ == u.created_at@
}

/// One grant was applied: one ledger row appended and the user's totals,
/// level and level name moved to the leveling engine's values for the
/// post-increment experience. Speaks only of users, rewards and the ledger
/// id counter, so a larger step may compose it.
pub open spec fn granted(
    pre: Store,
    post: Store,
    user_id: i64,
    amount: i64,
    reason: Seq<char>,
    source: Seq<char>,
    now: Seq<char>,
) -> bool {
    let i = user_index(pre.users@, user_id);
    let u = pre.users@[i];
    let v = post.users@[i];
    let row = post.rewards@.last();
    &&& has_user(pre.users@, user_id)
    &&& post.users@ == pre.users@.update(i, v)
    &&& user_static_eq(u, v)
    &&& v.experience_points == u.experience_points + amount
    &&& v.points == u.points + amount
    &&& v.level == spec_level(u.experience_points + amount)
    &&& v.level_name@ == spec_level_name(u.experience_points + amount)
    &&& post.rewards@ == pre.rewards@.push(row)
    &&& row.id == pre.next_reward_id
    &&& row.user_id == user_id
    &&& row.experience_points == amount
    &&& row.reward_reason@ == reason
    &&& row.source_type@ == source
    &&& row.created_at@ == now
    &&& post.next_reward_id == pre.next_reward_id + 1
}

/// Sessions, quizzes, attempts and the remaining id counters are unchanged.
pub open spec fn same_sessions_and_quizzes(pre: Store, post: Store) -> bool {
    &&& post.refresh_tokens@ == pre.refresh_tokens@
    &&& post.quizzes@ == pre.quizzes@
    &&& post.attempts@ == pre.attempts@
    &&& post.next_user_id == pre.next_user_id
    &&& post.next_quiz_id == pre.next_quiz_id
    &&& post.next_attempt_id == pre.next_attempt_id
    &&& post.next_refresh_id == pre.next_refresh_id
}

/// When a grant is owed to succeed: the user exists, the amount is
/// non-negative, and the machine limits on the running total and the ledger
/// id are not hit.
pub open spec fn grant_ok(pre: Store, user_id: i64, amount: i64) -> bool {
    &&& has_user(pre.users@, user_id)
    &&& amount >= 0
    &&& pre.users@[user_index(pre.users@, user_id)].experience_points + amount <= i64::MAX
    &&& pre.next_reward_id < i64::MAX
}

impl Store {
    /// Append one ledger row and atomically apply its delta to the user's
    /// totals, then recompute level and level name from the post-increment
    /// experience. A negative amount is rejected rather than applied.
    pub fn grant(&mut self, user_id: i64, amount: i64, reason: &str, source: &str, now: &str) -> (r:
        Result<(), AppError>)
        requires
            old(self).wf(),
        ensures
            final(self).wf(),
            r is Ok <==> grant_ok(*old(self), user_id, amount),
            r matches Ok(_) ==> granted(
                *old(self),
                *final(self),
                user_id,
                amount,
                reason@,
                source@,
                now@,
            ) && same_sessions_and_quizzes(*old(self), *final(self)),
            r is Err ==> *final(self) == *old(self),
            !has_user(old(self).users@, user_id) ==> (r matches Err(e) && e is NotFound),
            has_user(old(self).users@, user_id) && amount < 0 ==> (r matches Err(e)
                && e is BadRequest),
            has_user(old(self).users@, user_id) && amount >= 0 && !grant_ok(
                *old(self),
                user_id,
                amount,
            ) ==> (r matches Err(e) && e is Internal),
    {
        let i = match self.find_user(user_id) {
            Some(i) => i,
            None => {
                return Err(AppError::NotFound("User not found".to_owned()));
            },
        };
        proof {
            lemma_user_index(*self, user_id, i as int);
        }
        if amount < 0 {
            return Err(AppError::BadRequest("Negative reward amount".to_owned()));
        }
        let xp = self.users[i].experience_points;
        if xp > i64::MAX - amount {
            return Err(AppError::Internal("Experience total overflow".to_owned()));
        }
        if self.next_reward_id == i64::MAX {
            return Err(AppError::Internal("Ledger id overflow".to_owned()));
        }
        let new_xp = xp + amount;
        let (lvl, lname) = compute_level(new_xp);
        let u = &self.users[i];
        let new_user = User {
            id: u.id,
            kakao_id: u.kakao_id.clone(),
            username: u.username.clone(),
            email: u.email.clone(),
            profile_image_url: clone_opt_str(&u.profile_image_url),
            experience_points: new_xp,
            points: u.points + amount,
            level: lvl,
            level_name: lname.to_owned(),
            benefits: u.benefits.clone(),
            description: u.description.clone(),
            created_at: u.created_at.clone(),
        };
        let rid = self.next_reward_id;
        let row = Reward {
            id: rid,
            user_id,
            experience_points: amount,
            reward_reason: reason.to_owned(),
            source_type: source.to_owned(),
            created_at: now.to_owned(),
        };
        self.users[i] = new_user;
        self.next_reward_id = rid + 1;
        self.rewards.push(row);
        proof {
            let pre = *old(self);
            let post = *self;
            let gi = i as int;
            assert(post.rewards@.drop_last() =~= pre.rewards@);
            assert forall|j: int| 0 <= j < post.users@.len() implies user_ok(
                #[trigger] post.users@[j],
                post.rewards@,
                post.next_user_id,
            ) by {
                lemma_sum_push(pre.rewards@, post.rewards@.last(), post.users@[j].id);
                if j != gi {
                    if j < gi {
                        assert(pre.users@[j].id != pre.users@[gi].id);
                    } else {
                        assert(pre.users@[gi].id != pre.users@[j].id);
                    }
                }
            }
            assert forall|k: int| 0 <= k < post.rewards@.len() implies (
            #[trigger] post.rewards@[k]).experience_points >= 0 && has_user(
                post.users@,
                post.rewards@[k].user_id,
            ) by {
                if k < pre.rewards@.len() {
                    assert(pre.rewards@[k].experience_points >= 0);
                    let w = choose|w: int|
                        0 <= w < pre.users@.len() && pre.users@[w].id == pre.rewards@[k].user_id;
                    assert(post.users@[w].id == pre.users@[w].id);
                } else {
                    assert(post.users@[gi].id == user_id);
                }
            }
            assert forall|a: int, b: int|
                #![trigger post.users@[a].kakao_id, post.users@[b].kakao_id]
                0 <= a < b < post.users@.len() implies post.users@[a].kakao_id@
                != post.users@[b].kakao_id@ by {
                assert(post.users@[a].kakao_id@ == pre.users@[a].kakao_id@);
                assert(post.users@[b].kakao_id@ == pre.users@[b].kakao_id@);
            }
        }
        Ok(())
    }

    /// Manual score adjustment: a grant whose source tag is `"manual"`.
    pub fn update_score(&mut self, user_id: i64, amount: i64, reason: &str, now: &str) -> (r:
        Result<(), AppError>)
        requires
            old(self).wf(),
        ensures
            final(self).wf(),
            r is Ok <==> grant_ok(*old(self), user_id, amount),
            r matches Ok(_) ==> granted(
                *old(self),
                *final(self),
                user_id,
                amount,
                reason@,
                "manual"@,
                now@,
            ) && same_sessions_and_quizzes(*old(self), *final(self)),
            r is Err ==> *final(self) == *old(self),
            !has_user(old(self).users@, user_id) ==> (r matches Err(e) && e is NotFound),
            has_user(old(self).users@, user_id) && amount < 0 ==> (r matches Err(e)
                && e is BadRequest),
    {
        self.grant(user_id, amount, reason, "manual", now)
    }
}

/// When a quiz attempt is owed to succeed: quiz and user exist and the
/// machine limits on the record ids and, for a correct answer, on the
/// running total are not hit.
pub open spec fn attempt_ok(pre: Store, user_id: i64, quiz_id: i64, answer: Seq<char>) -> bool {
    let q = pre.quizzes@[quiz_index(pre.quizzes@, quiz_id)];
    let correct = answers_match(bytes_of(answer), bytes_of(q.correct_answer@));
    &&& has_quiz(pre.quizzes@, quiz_id)
    &&& has_user(pre.users@, user_id)
    &&& pre.next_attempt_id < i64::MAX
    &&& (correct ==> pre.users@[user_index(pre.users@, user_id)].experience_points + 10
        <= i64::MAX && pre.next_reward_id < i64::MAX)
}

/// One quiz attempt was processed: an attempt row was appended with the
/// trimmed answer and the computed correctness, and exactly when the answer
/// was correct, one grant of 10 experience with reason `"퀴즈 정답"` and
/// source `"quiz"` was applied.
pub open spec fn attempted(
    pre: Store,
    post: Store,
    user_id: i64,
    quiz_id: i64,
    answer: Seq<char>,
    now: Seq<char>,
) -> bool {
    let q = pre.quizzes@[quiz_index(pre.quizzes@, quiz_id)];
    let correct = answers_match(bytes_of(answer), bytes_of(q.correct_answer@));
    let a = post.attempts@.last();
    &&& has_quiz(pre.quizzes@, quiz_id)
    &&& post.attempts@ == pre.attempts@.push(a)
    &&& a.id == pre.next_attempt_id
    &&& a.user_id == user_id
    &&& a.quiz_id == quiz_id
    &&& bytes_of(a.answer@) == trim_bytes(bytes_of(answer))
    &&& a.is_correct == correct
    &&& a.points_earned == if correct {
        10int
    } else {
        0int
    }
    &&& a.experience_earned == a.points_earned
    &&& a.created_at@ == now
    &&& post.next_attempt_id == pre.next_attempt_id + 1
    &&& post.quizzes@ == pre.quizzes@
    &&& post.refresh_tokens@ == pre.refresh_tokens@
    &&& post.next_user_id == pre.next_user_id
    &&& post.next_quiz_id == pre.next_quiz_id
    &&& post.next_refresh_id == pre.next_refresh_id
    &&& if correct {
        granted(pre, post, user_id, 10, "퀴즈 정답"@, "quiz"@, now)
    } else {
        post.users@ == pre.users@ && post.rewards@ == pre.rewards@ && post.next_reward_id
            == pre.next_reward_id
    }
}

impl Store {
    /// Process one quiz attempt: determine correctness by the normalized
    /// answer match, always record the attempt, and on correctness invoke
    /// the reward ledger exactly once with a fixed reward of 10.
    /// `NotFound` when the quiz or the user is absent; on any failure no
    /// partial mutation is left visible.
    pub fn attempt_quiz(&mut self, user_id: i64, quiz_id: i64, answer: &str, now: &str) -> (r:
        Result<QuizAttemptResponse, AppError>)
        requires
            old(self).wf(),
        ensures
            final(self).wf(),
            r is Ok <==> attempt_ok(*old(self), user_id, quiz_id, answer@),
            r matches Ok(resp) ==> attempted(
                *old(self),
                *final(self),
                user_id,
                quiz_id,
                answer@,
                now@,
            ) && {
                let q = old(self).quizzes@[quiz_index(old(self).quizzes@, quiz_id)];
                let correct = answers_match(bytes_of(answer@), bytes_of(q.correct_answer@));
                &&& resp.is_correct == correct
                &&& resp.points_earned == if correct {
                    10int
                } else {
                    0int
                }
                &&& resp.experience_earned == resp.points_earned
                &&& resp.reward_given == correct
            },
            r is Err ==> *final(self) == *old(self),
            !has_quiz(old(self).quizzes@, quiz_id) ==> (r matches Err(e) && e is NotFound),
            has_quiz(old(self).quizzes@, quiz_id) && !has_user(old(self).users@, user_id) ==> (
            r matches Err(e) && e is NotFound),
            r matches Err(e) ==> (e is NotFound || e is Internal),
    {
        let qi = match self.find_quiz(quiz_id) {
            Some(i) => i,
            None => {
                return Err(AppError::NotFound("Quiz not found".to_owned()));
            },
        };
        proof {
            lemma_quiz_index(*self, quiz_id, qi as int);
        }
        let ui = match self.find_user(user_id) {
            Some(i) => i,
            None => {
                return Err(AppError::NotFound("User not found".to_owned()));
            },
        };
        proof {
            lemma_user_index(*self, user_id, ui as int);
        }
        let correct = check_answer(answer, self.quizzes[qi].correct_answer.as_str());
        let points: i64 = if correct {
            10
        } else {
            0
        };
        if correct {
            if self.users[ui].experience_points > i64::MAX - 10 {
                return Err(AppError::Internal("Experience total overflow".to_owned()));
            }
            if self.next_reward_id == i64::MAX {
                return Err(AppError::Internal("Ledger id overflow".to_owned()));
            }
        }
        if self.next_attempt_id == i64::MAX {
            return Err(AppError::Internal("Attempt id overflow".to_owned()));
        }
        let aid = self.next_attempt_id;
        let trimmed = trim_str(answer);
        let rec = QuizAttempt {
            id: aid,
            user_id,
            quiz_id,
            answer: trimmed.to_owned(),
            is_correct: correct,
            points_earned: points,
            experience_earned: points,
            created_at: now.to_owned(),
        };
        self.next_attempt_id = aid + 1;
        self.attempts.push(rec);
        if correct {
            let res = self.grant(user_id, 10, "퀴즈 정답", "quiz", now);
            match res {
                Ok(()) => {},
                Err(e) => {
                    // The grant's success condition was checked before the
                    // attempt row was recorded, so this branch cannot run.
                    proof {
                        assert(false);
                    }
                    return Err(e);
                },
            }
        }
        Ok(
            QuizAttemptResponse {
                is_correct: correct,
                points_earned: points,
                experience_earned: points,
                reward_given: correct,
            },
        )
    }
}

/// The first quiz at or after position `i` whose display date is the given
/// date.
pub open spec fn first_quiz_with_date_from(qs: Seq<Quiz>, date: Seq<char>, i: int) -> Option<Quiz>
    decreases qs.len() - i,
{
    if i < 0 || i >= qs.len() {
        None
    } else if qs[i].display_date@ == date {
        Some(qs[i])
    } else {
        first_quiz_with_date_from(qs, date, i + 1)
    }
}

/// The quiz whose display date is the given date (the first such row).
pub open spec fn todays_quiz(qs: Seq<Quiz>, date: Seq<char>) -> Option<Quiz> {
    first_quiz_with_date_from(qs, date, 0)
}

/// The most recent attempt strictly before position `i` by the given user
/// on the given quiz.
pub open spec fn last_attempt_before(atts: Seq<QuizAttempt>, uid: i64, qid: i64, i: int) -> Option<
    QuizAttempt,
>
    decreases i,
{
    if i <= 0 || i > atts.len() {
        None
    } else if atts[i - 1].user_id == uid && atts[i - 1].quiz_id == qid {
        Some(atts[i - 1])
    } else {
        last_attempt_before(atts, uid, qid, i - 1)
    }
}

/// The most recent attempt by the given user on the given quiz.
pub open spec fn last_attempt_for(atts: Seq<QuizAttempt>, uid: i64, qid: i64) -> Option<
    QuizAttempt,
> {
    last_attempt_before(atts, uid, qid, atts.len() as int)
}

/// Today's quiz status for a user: whether the quiz whose display date is
/// the given date was attempted, and the outcome of the most recent attempt.
pub open spec fn quiz_status_of(s: Store, uid: i64, today: Seq<char>) -> (bool, bool) {
    match todays_quiz(s.quizzes@, today) {
        Some(q) => match last_attempt_for(s.attempts@, uid, q.id) {
            Some(a) => (true, a.is_correct),
            None => (false, false),
        },
        None => (false, false),
    }
}

impl Store {
    /// Index of the first quiz whose display date is the given date.
    fn find_quiz_by_date(&self, date: &str) -> (r: Option<usize>)
        ensures
            match r {
                Some(i) => 0 <= i < self.quizzes@.len() && todays_quiz(self.quizzes@, date@)
                    == Some(self.quizzes@[i as int]),
                None => todays_quiz(self.quizzes@, date@) is None,
            },
    {
        let n = self.quizzes.len();
        let mut i: usize = 0;
        while i < n
            invariant
                n == self.quizzes@.len(),
                0 <= i <= n,
                todays_quiz(self.quizzes@, date@) == first_quiz_with_date_from(
                    self.quizzes@,
                    date@,
                    i as int,
                ),
            decreases n - i,
        {
            if str_eq(self.quizzes[i].display_date.as_str(), date) {
                return Some(i);
            }
            i += 1;
        }
        None
    }

    /// Index of the most recent attempt by the user on the quiz.
    fn find_last_attempt(&self, uid: i64, qid: i64) -> (r: Option<usize>)
        ensures
            match r {
                Some(i) => 0 <= i < self.attempts@.len() && last_attempt_for(
                    self.attempts@,
                    uid,
                    qid,
                ) == Some(self.attempts@[i as int]),
                None => last_attempt_for(self.attempts@, uid, qid) is None,
            },
    {
        let mut i: usize = self.attempts.len();
        while i > 0
            invariant
                i <= self.attempts@.len(),
                last_attempt_for(self.attempts@, uid, qid) == last_attempt_before(
                    self.attempts@,
                    uid,
                    qid,
                    i as int,
                ),
            decreases i,
        {
            i -= 1;
            if self.attempts[i].user_id == uid && self.attempts[i].quiz_id == qid {
                return Some(i);
            }
        }
        None
    }

    /// Whether the user already attempted the quiz whose display date is the
    /// given date, and with what outcome (most recent attempt wins).
    pub fn get_quiz_status(&self, user_id: i64, today: &str) -> (r: QuizStatusResponse)
        ensures
            r.attempted == quiz_status_of(*self, user_id, today@).0,
            r.is_correct == quiz_status_of(*self, user_id, today@).1,
    {
        match self.find_quiz_by_date(today) {
            None => QuizStatusResponse { attempted: false, is_correct: false },
            Some(qi) => {
                let qid = self.quizzes[qi].id;
                match self.find_last_attempt(user_id, qid) {
                    None => QuizStatusResponse { attempted: false, is_correct: false },
                    Some(ai) => QuizStatusResponse {
                        attempted: true,
                        is_correct: self.attempts[ai].is_correct,
                    },
                }
            },
        }
    }

    /// Add a quiz row, assigning it the next quiz id. The row is placed so
    /// that the list stays ordered by display date, most recent first.
    pub fn add_quiz(
        &mut self,
        question: String,
        answers: Vec<String>,
        correct_answer: String,
        explanation: String,
        hint_link: String,
        hint_description: String,
        display_date: String,
        quiz_type: String,
    ) -> (r: Result<i64, AppError>)
        requires
            old(self).wf(),
        ensures
            final(self).wf(),
            r is Ok <==> old(self).next_quiz_id < i64::MAX,
            r matches Ok(id) ==> {
                let p = quiz_insert_pos(old(self).quizzes@, bytes_of(display_date@));
                let q = final(self).quizzes@[p];
                &&& id == old(self).next_quiz_id
                &&& 0 <= p <= old(self).quizzes@.len()
                &&& final(self).quizzes@ == old(self).quizzes@.insert(p, q)
                &&& q.id == id
                &&& q.question == question
                &&& q.answers == answers
                &&& q.correct_answer == correct_answer
                &&& q.explanation == explanation
                &&& q.hint_link == hint_link
                &&& q.hint_description == hint_description
                &&& q.display_date == display_date
                &&& q.quiz_type == quiz_type
                &&& final(self).next_quiz_id == old(self).next_quiz_id + 1
                &&& final(self).users@ == old(self).users@
                &&& final(self).rewards@ == old(self).rewards@
                &&& final(self).attempts@ == old(self).attempts@
                &&& final(self).refresh_tokens@ == old(self).refresh_tokens@
            },
            r is Err ==> *final(self) == *old(self),
            r matches Err(e) ==> e is Internal,
    {
        if self.next_quiz_id == i64::MAX {
            return Err(AppError::Internal("Quiz id overflow".to_owned()));
        }
        let id = self.next_quiz_id;
        let ghost d = bytes_of(display_date@);
        let n = self.quizzes.len();
        let mut p: usize = 0;
        while p < n && !str_le(self.quizzes[p].display_date.as_str(), display_date.as_str())
            invariant
                n == self.quizzes@.len(),
                0 <= p <= n,
                d == bytes_of(display_date@),
                quiz_insert_pos(self.quizzes@, d) == quiz_pos_from(self.quizzes@, d, p as int),
                forall|j: int|
                    0 <= j < p ==> !lex_le(
                        bytes_of((#[trigger] self.quizzes@[j]).display_date@),
                        d,
                    ),
            decreases n - p,
        {
            p += 1;
        }
        proof {
            assert(quiz_insert_pos(self.quizzes@, d) == p as int);
        }
        self.next_quiz_id = id + 1;
        self.quizzes.insert(
            p,
            Quiz {
                id,
                question,
                answers,
                correct_answer,
                explanation,
                hint_link,
                hint_description,
                display_date,
                quiz_type,
            },
        );
        proof {
            let pre = *old(self);
            let post = *self;
            let pi = p as int;
            let qs = post.quizzes@;
            assert forall|a: int| 0 <= a < qs.len() implies 1 <= (#[trigger] qs[a]).id
                < post.next_quiz_id by {
                if a < pi {
                    assert(qs[a] == pre.quizzes@[a]);
                } else if a > pi {
                    assert(qs[a] == pre.quizzes@[a - 1]);
                }
            }
            assert forall|a: int, b: int|
                #![trigger qs[a].id, qs[b].id]
                0 <= a < b < qs.len() implies qs[a].id != qs[b].id by {
                if a < pi {
                    assert(qs[a] == pre.quizzes@[a]);
                } else if a > pi {
                    assert(qs[a] == pre.quizzes@[a - 1]);
                }
                if b < pi {
                    assert(qs[b] == pre.quizzes@[b]);
                } else if b > pi {
                    assert(qs[b] == pre.quizzes@[b - 1]);
                }
            }
            assert forall|a: int, b: int|
                #![trigger qs[a].display_date, qs[b].display_date]
                0 <= a < b < qs.len() implies lex_le(
                bytes_of(qs[b].display_date@),
                bytes_of(qs[a].display_date@),
            ) by {
                let old_qs = pre.quizzes@;
                if b < pi {
                    assert(qs[a] == old_qs[a] && qs[b] == old_qs[b]);
                } else if a > pi {
                    assert(qs[a] == old_qs[a - 1] && qs[b] == old_qs[b - 1]);
                } else if a < pi && b == pi {
                    assert(qs[a] == old_qs[a]);
                    lemma_lex_total(bytes_of(old_qs[a].display_date@), d);
                } else if a == pi && b > pi {
                    assert(qs[b] == old_qs[b - 1]);
                    assert(pi < old_qs.len());
                    assert(lex_le(bytes_of(old_qs[pi].display_date@), d));
                    if b - 1 > pi {
                        assert(lex_le(
                            bytes_of(old_qs[b - 1].display_date@),
                            bytes_of(old_qs[pi].display_date@),
                        ));
                        lemma_lex_trans(
                            bytes_of(old_qs[b - 1].display_date@),
                            bytes_of(old_qs[pi].display_date@),
                            d,
                        );
                    }
                } else if a < pi && b > pi {
                    assert(qs[a] == old_qs[a] && qs[b] == old_qs[b - 1]);
                    if b - 1 > a {
                        assert(lex_le(
                            bytes_of(old_qs[b - 1].display_date@),
                            bytes_of(old_qs[a].display_date@),
                        ));
                    }
                }
            }
        }
        Ok(id)
    }
}

/// The position at or after `i` where a quiz with the given display-date
/// bytes is inserted to keep the list ordered most recent first: the first
/// position holding a date at most the new one.
pub open spec fn quiz_pos_from(qs: Seq<Quiz>, d: Seq<u8>, i: int) -> int
    decreases qs.len() - i,
{
    if i < 0 || i >= qs.len() {
        qs.len() as int
    } else if lex_le(bytes_of(qs[i].display_date@), d) {
        i
    } else {
        quiz_pos_from(qs, d, i + 1)
    }
}

/// The position where a quiz with the given display-date bytes is inserted
/// to keep the list ordered most recent first.
pub open spec fn quiz_insert_pos(qs: Seq<Quiz>, d: Seq<u8>) -> int {
    quiz_pos_from(qs, d, 0)
}

/// The refresh-token rows left after deleting all rows of one user, in
/// their stored order.
pub open spec fn remove_tokens_for(s: Seq<RefreshTokenRecord>, uid: i64) -> Seq<RefreshTokenRecord>
    decreases s.len(),
{
    if s.len() == 0 {
        Seq::empty()
    } else {
        remove_tokens_for(s.drop_last(), uid) + if s.last().user_id == uid {
            Seq::empty()
        } else {
            seq![s.last()]
        }
    }
}

/// Whether some refresh-token row carries the given token string.
pub open spec fn has_token(s: Seq<RefreshTokenRecord>, t: Seq<char>) -> bool {
    exists|j: int| 0 <= j < s.len() && s[j].token@ == t
}

/// Deleting one user's rows keeps every other row, with its token string
/// still drawn from the original rows, and keeps distinct token strings
/// distinct.
pub proof fn lemma_remove_tokens_props(s: Seq<RefreshTokenRecord>, uid: i64)
    requires
        forall|i: int, j: int|
            #![trigger s[i].token, s[j].token]
            0 <= i < j < s.len() ==> s[i].token@ != s[j].token@,
    ensures
        forall|k: int|
            0 <= k < remove_tokens_for(s, uid).len() ==> (#[trigger] remove_tokens_for(s, uid)[k]).user_id
                != uid && has_token(s, remove_tokens_for(s, uid)[k].token@),
        forall|i: int, j: int|
            #![trigger remove_tokens_for(s, uid)[i].token, remove_tokens_for(s, uid)[j].token]
            0 <= i < j < remove_tokens_for(s, uid).len() ==> remove_tokens_for(s, uid)[i].token@
                != remove_tokens_for(s, uid)[j].token@,
    decreases s.len(),
{
    if s.len() > 0 {
        let s0 = s.drop_last();
        lemma_remove_tokens_props(s0, uid);
        let r0 = remove_tokens_for(s0, uid);
        let r = remove_tokens_for(s, uid);
        assert forall|k: int| 0 <= k < r0.len() implies has_token(s, r0[k].token@) by {
            let w = choose|w: int| 0 <= w < s0.len() && s0[w].token@ == r0[k].token@;
            assert(s[w].token@ == r0[k].token@);
        }
        if s.last().user_id == uid {
            assert(r =~= r0);
        } else {
            assert(r =~= r0.push(s.last()));
            assert forall|i: int, j: int|
                #![trigger r[i].token, r[j].token]
                0 <= i < j < r.len() implies r[i].token@ != r[j].token@ by {
                if j == r.len() - 1 {
                    let w = choose|w: int| 0 <= w < s0.len() && s0[w].token@ == r0[i].token@;
                    assert(s[w].token@ != s[s.len() - 1].token@);
                }
            }
        }
    }
}

/// Deleting a user's rows leaves none of that user's rows behind.
pub proof fn lemma_remove_tokens_none_left(s: Seq<RefreshTokenRecord>, uid: i64)
    ensures
        forall|k: int|
            0 <= k < remove_tokens_for(s, uid).len() ==> (#[trigger] remove_tokens_for(s, uid)[k]).user_id
                != uid,
    decreases s.len(),
{
    if s.len() > 0 {
        lemma_remove_tokens_none_left(s.drop_last(), uid);
        let r0 = remove_tokens_for(s.drop_last(), uid);
        let r = remove_tokens_for(s, uid);
        if s.last().user_id == uid {
            assert(r =~= r0);
        } else {
            assert(r =~= r0.push(s.last()));
            assert forall|k: int| 0 <= k < r.len() implies (#[trigger] r[k]).user_id != uid by {
                if k < r0.len() {
                    assert(r[k] == r0[k]);
                }
            }
        }
    }
}

/// Deleting a user's rows from rows that hold none of them changes nothing.
pub proof fn lemma_remove_tokens_noop(s: Seq<RefreshTokenRecord>, uid: i64)
    requires
        forall|k: int| 0 <= k < s.len() ==> (#[trigger] s[k]).user_id != uid,
    ensures
        remove_tokens_for(s, uid) == s,
    decreases s.len(),
{
    if s.len() > 0 {
        lemma_remove_tokens_noop(s.drop_last(), uid);
        assert(remove_tokens_for(s, uid) =~= s.drop_last().push(s.last()));
        assert(s.drop_last().push(s.last()) =~= s);
    }
}

/// Logout is idempotent: deleting a user's refresh-token rows twice is the
/// same as deleting them once, and the second deletion removes nothing.
pub proof fn lemma_logout_idempotent(s: Seq<RefreshTokenRecord>, uid: i64)
    ensures
        remove_tokens_for(remove_tokens_for(s, uid), uid) == remove_tokens_for(s, uid),
{
    lemma_remove_tokens_none_left(s, uid);
    lemma_remove_tokens_noop(remove_tokens_for(s, uid), uid);
}

/// Appending one row commutes with deletion in the expected way.
proof fn lemma_remove_tokens_push(s: Seq<RefreshTokenRecord>, x: RefreshTokenRecord, uid: i64)
    ensures
        remove_tokens_for(s.push(x), uid) == remove_tokens_for(s, uid) + if x.user_id == uid {
            Seq::<RefreshTokenRecord>::empty()
        } else {
            seq![x]
        },
{
    assert(s.push(x).drop_last() =~= s);
    assert(s.push(x).last() == x);
}

impl Store {
    /// Whether some stored refresh-token row carries the given token string.
    fn token_string_exists(&self, t: &str) -> (r: bool)
        ensures
            r == has_token(self.refresh_tokens@, t@),
    {
        let n = self.refresh_tokens.len();
        let mut i: usize = 0;
        while i < n
            invariant
                n == self.refresh_tokens@.len(),
                0 <= i <= n,
                forall|j: int| 0 <= j < i ==> self.refresh_tokens@[j].token@ != t@,
            decreases n - i,
        {
            if str_eq(self.refresh_tokens[i].token.as_str(), t) {
                return true;
            }
            i += 1;
        }
        false
    }

    /// Delete all refresh-token rows of one user; returns how many rows
    /// were deleted.
    pub fn delete_refresh_tokens(&mut self, user_id: i64) -> (r: usize)
        requires
            old(self).wf(),
        ensures
            final(self).wf(),
            final(self).refresh_tokens@ == remove_tokens_for(old(self).refresh_tokens@, user_id),
            r == old(self).refresh_tokens@.len() - final(self).refresh_tokens@.len(),
            final(self).users@ == old(self).users@,
            final(self).quizzes@ == old(self).quizzes@,
            final(self).attempts@ == old(self).attempts@,
            final(self).rewards@ == old(self).rewards@,
            final(self).next_user_id == old(self).next_user_id,
            final(self).next_quiz_id == old(self).next_quiz_id,
            final(self).next_attempt_id == old(self).next_attempt_id,
            final(self).next_reward_id == old(self).next_reward_id,
            final(self).next_refresh_id == old(self).next_refresh_id,
    {
        let ghost orig = self.refresh_tokens@;
        let n0 = self.refresh_tokens.len();
        let mut i: usize = 0;
        let ghost mut k: int = 0;
        while i < self.refresh_tokens.len()
            invariant
                old(self).wf(),
                orig == old(self).refresh_tokens@,
                n0 == orig.len(),
                0 <= i <= self.refresh_tokens@.len(),
                0 <= k <= orig.len(),
                i <= k,
                self.refresh_tokens@ =~= self.refresh_tokens@.take(i as int) + orig.skip(k),
                self.refresh_tokens@.take(i as int) == remove_tokens_for(orig.take(k), user_id),
                self.users@ == old(self).users@,
                self.quizzes@ == old(self).quizzes@,
                self.attempts@ == old(self).attempts@,
                self.rewards@ == old(self).rewards@,
                self.next_user_id == old(self).next_user_id,
                self.next_quiz_id == old(self).next_quiz_id,
                self.next_attempt_id == old(self).next_attempt_id,
                self.next_reward_id == old(self).next_reward_id,
                self.next_refresh_id == old(self).next_refresh_id,
            decreases orig.len() - k,
        {
            proof {
                assert(self.refresh_tokens@[i as int] == orig[k]);
                assert(orig.take(k + 1) =~= orig.take(k).push(orig[k]));
                lemma_remove_tokens_push(orig.take(k), orig[k], user_id);
            }
            if self.refresh_tokens[i].user_id == user_id {
                let ghost pre_loop = self.refresh_tokens@;
                self.refresh_tokens.remove(i);
                proof {
                    k = k + 1;
                    assert(self.refresh_tokens@ =~= pre_loop.take(i as int) + orig.skip(k));
                    assert(self.refresh_tokens@.take(i as int) =~= pre_loop.take(i as int));
                }
            } else {
                i += 1;
                proof {
                    k = k + 1;
                    assert(self.refresh_tokens@.take(i as int) =~= self.refresh_tokens@.take(
                        i as int - 1,
                    ).push(orig[k - 1]));
                }
            }
        }
        proof {
            assert(k == orig.len());
            assert(orig.take(k) =~= orig);
            assert(self.refresh_tokens@ =~= self.refresh_tokens@.take(i as int));
            assert(self.refresh_tokens@.len() <= orig.len());
            lemma_remove_tokens_props(orig, user_id);
        }
        n0 - self.refresh_tokens.len()
    }

    /// Index of the user with the given external id.
    fn find_user_by_kakao(&self, kakao_id: &str) -> (r: Option<usize>)
        ensures
            match r {
                Some(i) => 0 <= i < self.users@.len() && self.users@[i as int].kakao_id@
                    == kakao_id@,
                None => !has_kakao(self.users@, kakao_id@),
            },
    {
        let n = self.users.len();
        let mut i: usize = 0;
        while i < n
            invariant
                n == self.users@.len(),
                0 <= i <= n,
                forall|j: int| 0 <= j < i ==> self.users@[j].kakao_id@ != kakao_id@,
            decreases n - i,
        {
            if str_eq(self.users[i].kakao_id.as_str(), kakao_id) {
                return Some(i);
            }
            i += 1;
        }
        None
    }

    /// Best-effort logout: when the header carries a valid access
    /// credential, delete all of that subject's refresh-token rows; always
    /// return normally, reporting how many rows were deleted.
    pub fn logout(&mut self, auth_header: Option<&str>, jwt_secret: &str) -> (r: usize)
        requires
            old(self).wf(),
        ensures
            final(self).wf(),
            final(self).users@ == old(self).users@,
            final(self).quizzes@ == old(self).quizzes@,
            final(self).attempts@ == old(self).attempts@,
            final(self).rewards@ == old(self).rewards@,
            r == old(self).refresh_tokens@.len() - final(self).refresh_tokens@.len(),
            match auth_header {
                None => *final(self) == *old(self) && r == 0,
                Some(h) => match verified_subject(h.spec_bytes(), jwt_secret.spec_bytes()) {
                    None => *final(self) == *old(self) && r == 0,
                    Some(uid) => final(self).refresh_tokens@ == remove_tokens_for(
                        old(self).refresh_tokens@,
                        uid,
                    ) || *final(self) == *old(self),
                },
            },
    {
        match extract_user_id_from_headers(auth_header, jwt_secret) {
            Ok(uid) => self.delete_refresh_tokens(uid),
            Err(_) => 0,
        }
    }
}

/// Whether a refresh-token row is stored for the subject carrying exactly
/// the presented token string, with an absolute expiry still after `now`
/// (expiry strings compare lexicographically, the order their fixed
/// date-time format makes chronological).
pub open spec fn has_active_refresh(
    s: Seq<RefreshTokenRecord>,
    uid: i64,
    token: Seq<char>,
    now: Seq<char>,
) -> bool {
    exists|j: int|
        0 <= j < s.len() && s[j].user_id == uid && s[j].token@ == token && !lex_le(
            bytes_of(s[j].expires_at@),
            bytes_of(now),
        )
}

impl Store {
    /// Whether a stored refresh-token row makes the presented token active
    /// for the subject at time `now`.
    fn has_stored_refresh(&self, uid: i64, token: &str, now: &str) -> (r: bool)
        ensures
            r == has_active_refresh(self.refresh_tokens@, uid, token@, now@),
    {
        let n = self.refresh_tokens.len();
        let mut i: usize = 0;
        while i < n
            invariant
                n == self.refresh_tokens@.len(),
                0 <= i <= n,
                forall|j: int|
                    0 <= j < i ==> !((#[trigger] self.refresh_tokens@[j]).user_id == uid
                        && self.refresh_tokens@[j].token@ == token@ && !lex_le(
                        bytes_of(self.refresh_tokens@[j].expires_at@),
                        bytes_of(now@),
                    )),
            decreases n - i,
        {
            let row = &self.refresh_tokens[i];
            if row.user_id == uid && str_eq(row.token.as_str(), token) && !str_le(
                row.expires_at.as_str(),
                now,
            ) {
                return true;
            }
            i += 1;
        }
        false
    }

    /// The persisted-revocation refresh flow: mint a fresh access token
    /// only for a refresh-kind credential whose token string is still
    /// stored for its subject with an unexpired absolute expiry, so that a
    /// logout — which deletes the rows — revokes it. `now` is the caller's
    /// current time in the expiry strings' date-time format.
    pub fn refresh_session(&self, auth_header: Option<&str>, jwt_secret: &str, now: &str) -> (r:
        Result<RefreshResponse, AppError>)
        ensures
            r matches Ok(resp) ==> (auth_header matches Some(h) && bearer_token(
                h.spec_bytes(),
            ) matches Some(tb) && jwt_claims_of(tb, jwt_secret.spec_bytes()) matches Some(c)
                && c.3 == "refresh"@ && has_active_refresh(
                self.refresh_tokens@,
                c.0,
                vstd::utf8::decode_utf8(tb),
                now@,
            ) && valid_token_for(
                bytes_of(resp.access_token@),
                jwt_secret.spec_bytes(),
                c.0,
                "access"@,
                ACCESS_TTL_SECS,
            )),
            auth_header is None ==> r is Err,
            (auth_header matches Some(h) && bearer_token(h.spec_bytes()) is None) ==> r is Err,
            (auth_header matches Some(h) && bearer_token(h.spec_bytes()) matches Some(tb)
                && jwt_claims_of(tb, jwt_secret.spec_bytes()) is None) ==> r is Err,
            (auth_header matches Some(h) && bearer_token(h.spec_bytes()) matches Some(tb)
                && jwt_claims_of(tb, jwt_secret.spec_bytes()) matches Some(c) && (c.3
                != "refresh"@ || !has_active_refresh(
                self.refresh_tokens@,
                c.0,
                vstd::utf8::decode_utf8(tb),
                now@,
            ))) ==> r is Err,
            r matches Err(e) ==> e is Unauthorized,
    {
        let header = match auth_header {
            Some(h) => h,
            None => {
                return Err(AppError::Unauthorized("Missing authorization header".to_owned()));
            },
        };
        let token = match strip_bearer(header) {
            Some(t) => t,
            None => {
                return Err(AppError::Unauthorized("Invalid authorization format".to_owned()));
            },
        };
        proof {
            vstd::utf8::encode_utf8_decode_utf8(token@);
        }
        let claims = match parse_token(token, jwt_secret, current_timestamp()) {
            Ok(c) => c,
            Err(e) => {
                return Err(e);
            },
        };
        if !str_eq(claims.token_type.as_str(), "refresh") {
            return Err(AppError::Unauthorized("Invalid token type".to_owned()));
        }
        if !self.has_stored_refresh(claims.sub, token, now) {
            return Err(AppError::Unauthorized("Refresh token revoked or expired".to_owned()));
        }
        match create_access_token(claims.sub, jwt_secret) {
            Ok(t) => Ok(RefreshResponse { access_token: t }),
            Err(e) => Err(e),
        }
    }
}

/// A user row freshly created at login: the external identity's fields,
/// zero experience and points, level 1 with its name, and empty benefits
/// and description.
pub open spec fn fresh_user_like(u: User, kakao: KakaoUser, now: Seq<char>, id: i64) -> bool {
    &&& u.id == id
    &&& u.kakao_id@ == kakao.kakao_id@
    &&& u.username@ == kakao.nickname@
    &&& u.email@ == kakao.email@
    &&& opt_str_view(u.profile_image_url) == opt_str_view(kakao.profile_image)
    &&& u.experience_points == 0
    &&& u.points == 0
    &&& u.level == 1
    &&& u.level_name@ == spec_level_name(0)
    &&& u.benefits@ == ""@
    &&& u.description@ == ""@
    &&& u.created_at@ == now
}

impl Store {
    /// Log a verified external identity in: find or create the local user,
    /// mint an access/refresh token pair, persist the refresh token with
    /// the given absolute expiry, and return the access token.
    pub fn oauth_login(
        &mut self,
        kakao: &KakaoUser,
        now: &str,
        refresh_expires_at: &str,
        jwt_secret: &str,
    ) -> (r: Result<OAuthResponse, AppError>)
        requires
            old(self).wf(),
        ensures
            final(self).wf(),
            has_kakao(old(self).users@, kakao.kakao_id@) ==> final(self).users@ == old(
                self,
            ).users@,
            (!has_kakao(old(self).users@, kakao.kakao_id@) && final(self).users@ != old(
                self,
            ).users@) ==> {
                &&& final(self).users@ == old(self).users@.push(final(self).users@.last())
                &&& fresh_user_like(
                    final(self).users@.last(),
                    *kakao,
                    now@,
                    old(self).next_user_id,
                )
                &&& final(self).next_user_id == old(self).next_user_id + 1
            },
            r is Ok ==> has_kakao(final(self).users@, kakao.kakao_id@),
            r matches Ok(resp) ==> {
                let t = final(self).refresh_tokens@.last();
                &&& final(self).refresh_tokens@ == old(self).refresh_tokens@.push(t)
                &&& t.user_id == final(self).users@[kakao_index(
                    final(self).users@,
                    kakao.kakao_id@,
                )].id
                &&& t.id == old(self).next_refresh_id
                &&& t.expires_at@ == refresh_expires_at@
                &&& valid_token_for(
                    bytes_of(t.token@),
                    jwt_secret.spec_bytes(),
                    t.user_id,
                    "refresh"@,
                    REFRESH_TTL_SECS,
                )
                &&& valid_token_for(
                    bytes_of(resp.access_token@),
                    jwt_secret.spec_bytes(),
                    t.user_id,
                    "access"@,
                    ACCESS_TTL_SECS,
                )
                &&& final(self).next_refresh_id == old(self).next_refresh_id + 1
            },
            r is Err ==> final(self).refresh_tokens@ == old(self).refresh_tokens@,
            final(self).quizzes@ == old(self).quizzes@,
            final(self).attempts@ == old(self).attempts@,
            final(self).rewards@ == old(self).rewards@,
            final(self).next_quiz_id == old(self).next_quiz_id,
            final(self).next_attempt_id == old(self).next_attempt_id,
            final(self).next_reward_id == old(self).next_reward_id,
            r matches Err(e) ==> e is Internal,
            (!has_kakao(old(self).users@, kakao.kakao_id@) && old(self).next_user_id
                == i64::MAX) ==> (r is Err && *final(self) == *old(self)),
            r is Err ==> ((!has_kakao(old(self).users@, kakao.kakao_id@) && old(self).next_user_id
                == i64::MAX) || old(self).next_refresh_id == i64::MAX || old(
                self,
            ).refresh_tokens@.len() > 0),
            ((has_kakao(old(self).users@, kakao.kakao_id@) || old(self).next_user_id < i64::MAX)
                && old(self).next_refresh_id < i64::MAX && old(self).refresh_tokens@.len()
                == 0) ==> r is Ok,
    {
        let uid: i64 = match self.find_user_by_kakao(kakao.kakao_id.as_str()) {
            Some(i) => {
                proof {
                    lemma_kakao_index(*self, kakao.kakao_id@, i as int);
                }
                self.users[i].id
            },
            None => {
                if self.next_user_id == i64::MAX {
                    return Err(AppError::Internal("User id overflow".to_owned()));
                }
                let id = self.next_user_id;
                let new_user = User {
                    id,
                    kakao_id: kakao.kakao_id.clone(),
                    username: kakao.nickname.clone(),
                    email: kakao.email.clone(),
                    profile_image_url: clone_opt_str(&kakao.profile_image),
                    experience_points: 0,
                    points: 0,
                    level: 1,
                    level_name: "관심인".to_owned(),
                    benefits: "".to_owned(),
                    description: "".to_owned(),
                    created_at: now.to_owned(),
                };
                self.next_user_id = id + 1;
                self.users.push(new_user);
                proof {
                    let pre = *old(self);
                    let post = *self;
                    let n = pre.users@.len() as int;
                    assert forall|k: int| 0 <= k < pre.rewards@.len() implies (
                    #[trigger] pre.rewards@[k]).user_id != id by {
                        let w = choose|w: int|
                            0 <= w < pre.users@.len() && pre.users@[w].id == pre.rewards@[k].user_id;
                        assert(pre.users@[w].id < id);
                    }
                    lemma_sum_zero(pre.rewards@, id);
                    assert forall|j: int| 0 <= j < post.users@.len() implies user_ok(
                        #[trigger] post.users@[j],
                        post.rewards@,
                        post.next_user_id,
                    ) by {
                        if j < n {
                            assert(user_ok(pre.users@[j], pre.rewards@, pre.next_user_id));
                        }
                    }
                    assert forall|k: int| 0 <= k < post.rewards@.len() implies (
                    #[trigger] post.rewards@[k]).experience_points >= 0 && has_user(
                        post.users@,
                        post.rewards@[k].user_id,
                    ) by {
                        let w = choose|w: int|
                            0 <= w < pre.users@.len() && pre.users@[w].id == pre.rewards@[k].user_id;
                        assert(post.users@[w].id == pre.rewards@[k].user_id);
                    }
                }
                id
            },
        };
        let access = match create_access_token(uid, jwt_secret) {
            Ok(t) => t,
            Err(e) => {
                return Err(e);
            },
        };
        let refresh = match create_refresh_token(uid, jwt_secret) {
            Ok(t) => t,
            Err(e) => {
                return Err(e);
            },
        };
        if self.token_string_exists(refresh.as_str()) {
            return Err(AppError::Internal("Refresh token collision".to_owned()));
        }
        if self.next_refresh_id == i64::MAX {
            return Err(AppError::Internal("Session id overflow".to_owned()));
        }
        let tid = self.next_refresh_id;
        self.next_refresh_id = tid + 1;
        proof {
            if !has_kakao(old(self).users@, kakao.kakao_id@) {
                lemma_kakao_index(*self, kakao.kakao_id@, self.users@.len() - 1);
            }
        }
        self.refresh_tokens.push(
            RefreshTokenRecord {
                id: tid,
                user_id: uid,
                token: refresh,
                expires_at: refresh_expires_at.to_owned(),
            },
        );
        proof {
            let toks = self.refresh_tokens@;
            assert forall|a: int, b: int|
                #![trigger toks[a].token, toks[b].token]
                0 <= a < b < toks.len() implies toks[a].token@ != toks[b].token@ by {
                if b == toks.len() - 1 {
                    assert(!has_token(old(self).refresh_tokens@, toks[b].token@));
                }
            }
        }
        Ok(OAuthResponse { access_token: access })
    }
}

/// The ledger reconciles: under the store invariant, every user's
/// experience equals the sum of that user's ledger deltas, the points
/// mirror it, and level and level name are the leveling engine's values
/// for it — whatever sequence of grants produced the state.
pub proof fn lemma_ledger_reconciles(s: Store, uid: i64)
    requires
        s.wf(),
        has_user(s.users@, uid),
    ensures
        ({
            let u = s.users@[user_index(s.users@, uid)];
            &&& u.experience_points == sum_rewards_for(s.rewards@, uid)
            &&& u.points == u.experience_points
            &&& u.level == spec_level(u.experience_points as int)
            &&& u.level_name@ == spec_level_name(u.experience_points as int)
        }),
{
    let i = user_index(s.users@, uid);
    assert(user_ok(s.users@[i], s.rewards@, s.next_user_id));
}

/// Serialized grants accumulate: two grants to the same user, applied one
/// after the other as the exclusion boundary forces, leave the user's
/// experience raised by exactly the sum of the two amounts — no update is
/// lost.
pub proof fn lemma_grants_accumulate(
    s0: Store,
    s1: Store,
    s2: Store,
    uid: i64,
    a1: i64,
    a2: i64,
    reason1: Seq<char>,
    reason2: Seq<char>,
    source1: Seq<char>,
    source2: Seq<char>,
    t1: Seq<char>,
    t2: Seq<char>,
)
    requires
        s0.wf(),
        s1.wf(),
        granted(s0, s1, uid, a1, reason1, source1, t1),
        granted(s1, s2, uid, a2, reason2, source2, t2),
    ensures
        s2.users@[user_index(s0.users@, uid)].experience_points == s0.users@[user_index(
            s0.users@,
            uid,
        )].experience_points + a1 + a2,
{
    let i = user_index(s0.users@, uid);
    assert(s0.users@[i].id == uid);
    assert(s1.users@[i].id == uid);
    lemma_user_index(s1, uid, i);
}

/// Two ledger rows carry the same data.
pub open spec fn reward_like(a: Reward, b: Reward) -> bool {
    &&& a.id == b.id
    &&& a.user_id == b.user_id
    &&& a.experience_points == b.experience_points
    &&& a.reward_reason@ == b.reward_reason@
    &&& a.source_type@ == b.source_type@
    &&& a.created_at@ == b.created_at@
}

/// Two ledger listings carry the same rows in the same order.
pub open spec fn rewards_like(a: Seq<Reward>, b: Seq<Reward>) -> bool {
    a.len() == b.len() && forall|k: int| 0 <= k < a.len() ==> reward_like(a[k], b[k])
}

/// One user's ledger rows among the first `i`, most recent first.
pub open spec fn rewards_desc_from(s: Seq<Reward>, uid: i64, i: int) -> Seq<Reward>
    decreases i,
{
    if i <= 0 || i > s.len() {
        Seq::empty()
    } else {
        (if s[i - 1].user_id == uid {
            seq![s[i - 1]]
        } else {
            Seq::empty()
        }) + rewards_desc_from(s, uid, i - 1)
    }
}

/// One user's ledger rows, most recent first.
pub open spec fn rewards_desc(s: Seq<Reward>, uid: i64) -> Seq<Reward> {
    rewards_desc_from(s, uid, s.len() as int)
}

impl Store {
    /// The user's ledger rows, most recent first.
    pub fn get_rewards(&self, user_id: i64) -> (r: Vec<Reward>)
        ensures
            rewards_like(r@, rewards_desc(self.rewards@, user_id)),
    {
        let n = self.rewards.len();
        let mut out: Vec<Reward> = Vec::new();
        let mut i: usize = 0;
        while i < n
            invariant
                n == self.rewards@.len(),
                0 <= i <= n,
                rewards_like(out@, rewards_desc_from(self.rewards@, user_id, i as int)),
            decreases n - i,
        {
            if self.rewards[i].user_id == user_id {
                let ghost prev = out@;
                let row = &self.rewards[i];
                out.insert(
                    0,
                    Reward {
                        id: row.id,
                        user_id: row.user_id,
                        experience_points: row.experience_points,
                        reward_reason: row.reward_reason.clone(),
                        source_type: row.source_type.clone(),
                        created_at: row.created_at.clone(),
                    },
                );
                proof {
                    let spec_new = rewards_desc_from(self.rewards@, user_id, i + 1);
                    let spec_old = rewards_desc_from(self.rewards@, user_id, i as int);
                    assert(spec_new =~= seq![self.rewards@[i as int]] + spec_old);
                    assert(out@ =~= seq![out@[0]] + prev);
                    assert forall|k: int| 0 <= k < out@.len() implies reward_like(
                        out@[k],
                        spec_new[k],
                    ) by {
                        if k > 0 {
                            assert(out@[k] == prev[k - 1]);
                            assert(spec_new[k] == spec_old[k - 1]);
                        }
                    }
                }
            } else {
                proof {
                    assert(rewards_desc_from(self.rewards@, user_id, i + 1) =~= rewards_desc_from(
                        self.rewards@,
                        user_id,
                        i as int,
                    ));
                }
            }
            i += 1;
        }
        out
    }
}

} // verus!
