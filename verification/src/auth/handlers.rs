//! The session rotation protocol: signup, signin, refresh and logout,
//! each pinned to an exact relation between inputs, the session table
//! before and after, and the outcome.
use vstd::prelude::*;
use vstd::string::*;
use vstd::utf8::*;
use crate::Validate;
use crate::auth::{AuthenticatedUser, Claims, SignIn, SignUp, token_of};
use crate::auth::hashing::{self, hashed, verifies};
use crate::auth::repo::{
    SessionStore, SessionView, UserStore, UserView, cleanup_rows, has_token, has_user_row,
    has_username, lemma_cleanup, lemma_drop_user_rows_props, lemma_remove_rows_props,
    lemma_unique_username, match_count, remove_rows, rotate_rows, drop_user_rows,
};
use crate::config::Config;
use crate::utils::random_nonce;

verus! {

/// Outcome of signup.
pub enum SignupOutcome {
    /// The new identity, as it is safe to return.
    Created(AuthenticatedUser),
    /// The body failed validation.
    Invalid,
    /// The unique username is taken.
    UsernameTaken,
    /// Hashing misconfiguration; nothing was stored.
    Internal,
}

/// Outcome of signin.
pub enum SigninOutcome {
    /// Access token, rotation-cookie value, and the identity.
    Granted { token: String, cookie: String, user: AuthenticatedUser },
    /// The body failed validation.
    Invalid,
    /// Unknown username or wrong password, indistinguishably.
    Unauthorized,
}

/// Outcome of refresh.
pub enum RefreshOutcome {
    /// Fresh access token, fresh rotation-cookie value, the identity.
    Granted { token: String, cookie: String, user: AuthenticatedUser },
    /// Missing cookie, or reuse detected; on reuse the cookie is cleared.
    Unauthorized { clear_cookie: bool },
    /// The row to rotate vanished between check and update: a true race,
    /// reported as a server error, not as unauthorized.
    Internal,
}

/// Outcome of logout. A present cookie always clears and reports success.
pub enum LogoutOutcome {
    /// The cookie was present; it is cleared and the caller sees success.
    LoggedOut,
    /// No cookie was presented.
    Unauthorized,
}

/// The view of an optional presented cookie.
pub open spec fn opt_view(cookie: Option<&String>) -> Option<Seq<char>> {
    match cookie {
        Some(c) => Some(c@),
        None => None,
    }
}

/// What signin owes once the looked-up record is `u`: reject on a wrong
/// password; otherwise run the proactive reuse cleanup for a presented
/// cookie, append a fresh session row carrying the minted refresh token,
/// and hand out both tokens with the identity.
pub open spec fn signin_found_post(
    u: UserView,
    body: SignIn,
    cookie: Option<Seq<char>>,
    config: Config,
    now: u64,
    before: Seq<SessionView>,
    after: Seq<SessionView>,
    r: SigninOutcome,
) -> bool {
    let pepper = encode_utf8(config.argon_secret@);
    let pw = encode_utf8(body.password@);
    if !verifies(pepper, pw, u.password) {
        r is Unauthorized && after == before
    } else {
        let cleaned = match cookie {
            Some(c) => cleanup_rows(before, u.id, c),
            None => before,
        };
        &&& r matches SigninOutcome::Granted { token, cookie: ck, user } && (exists|n: u64|
            token@ == #[trigger] token_of(
                u.id,
                u.username,
                u.created_at,
                (now + config.access_token_ttl_sec) as u64,
                n,
                encode_utf8(config.access_token_secret@),
            )) && (exists|n: u64|
            ck@ == #[trigger] token_of(
                u.id,
                u.username,
                u.created_at,
                (now + config.refresh_token_ttl_sec) as u64,
                n,
                encode_utf8(config.refresh_token_secret@),
            )) && after == cleaned.push(SessionView { user_id: u.id, token: ck@, created_at: now })
            && user.id == u.id && user.username@ == u.username && user.created_at == u.created_at
    }
}

/// Everything signin promises, as one relation.
pub open spec fn signin_post(
    users: Seq<UserView>,
    body: SignIn,
    cookie: Option<Seq<char>>,
    config: Config,
    now: u64,
    before: Seq<SessionView>,
    after: Seq<SessionView>,
    r: SigninOutcome,
) -> bool {
    &&& (!body.valid() ==> r is Invalid && after == before)
    &&& (body.valid() && !has_username(users, body.username@) ==> r is Unauthorized && after
        == before)
    &&& (body.valid() ==> forall|i: int|
        0 <= i < users.len() && (#[trigger] users[i]).username == body.username@
            ==> signin_found_post(users[i], body, cookie, config, now, before, after, r))
}

/// Everything refresh promises, as one relation: no cookie is an outright
/// rejection; a stale cookie revokes every session of the user and clears
/// the cookie; a current cookie rotates exactly the matching row to the
/// freshly minted refresh token and hands out the new pair.
pub open spec fn refresh_post(
    u: AuthenticatedUser,
    cookie: Option<Seq<char>>,
    config: Config,
    now: u64,
    before: Seq<SessionView>,
    after: Seq<SessionView>,
    r: RefreshOutcome,
) -> bool {
    match cookie {
        None => {
            &&& r matches RefreshOutcome::Unauthorized { clear_cookie } && !clear_cookie
            &&& after == before
        },
        Some(c) => {
            let cleaned = cleanup_rows(before, u.id, c);
            if before.len() - cleaned.len() > 0 {
                &&& r matches RefreshOutcome::Unauthorized { clear_cookie } && clear_cookie
                &&& after == cleaned
            } else {
                &&& (match_count(cleaned, u.id, c) == 0 ==> r is Internal && after == cleaned)
                &&& (match_count(cleaned, u.id, c) > 0 ==> (r
                    matches RefreshOutcome::Granted { token, cookie: ck, user } && (exists|n: u64|
                    token@ == #[trigger] token_of(
                        u.id,
                        u.username@,
                        u.created_at,
                        (now + config.access_token_ttl_sec) as u64,
                        n,
                        encode_utf8(config.access_token_secret@),
                    )) && (exists|n: u64|
                    ck@ == #[trigger] token_of(
                        u.id,
                        u.username@,
                        u.created_at,
                        (now + config.refresh_token_ttl_sec) as u64,
                        n,
                        encode_utf8(config.refresh_token_secret@),
                    )) && ck@ != c && after == rotate_rows(cleaned, u.id, c, ck@, now) && user.id
                    == u.id && user.username@ == u.username@ && user.created_at == u.created_at))
            }
        },
    }
}

/// Everything logout promises: without a cookie it rejects; with one it
/// deletes exactly the matching rows, falls back to the defensive reuse
/// cleanup when nothing matched, and always reports success.
pub open spec fn logout_post(
    u: AuthenticatedUser,
    cookie: Option<Seq<char>>,
    before: Seq<SessionView>,
    after: Seq<SessionView>,
    r: LogoutOutcome,
) -> bool {
    match cookie {
        None => r is Unauthorized && after == before,
        Some(c) => {
            &&& r is LoggedOut
            &&& (match_count(before, u.id, c) > 0 ==> after == remove_rows(before, u.id, c))
            &&& (match_count(before, u.id, c) == 0 ==> after == cleanup_rows(before, u.id, c))
        },
    }
}

/// Signup: validate the body, hash the password under the pepper with a
/// fresh salt, and insert the user; a taken username is a conflict.
pub fn signup(users: &mut UserStore, body: &SignUp, config: &Config, now: u64) -> (r:
    SignupOutcome)
    requires
        old(users).wf(),
    ensures
        final(users).wf(),
        !body.valid() ==> r is Invalid && final(users)@ == old(users)@,
        body.valid() ==> (r is Created || r is UsernameTaken || r is Internal),
        body.valid() && r is Internal ==> final(users)@ == old(users)@,
        body.valid() && r is UsernameTaken ==> has_username(old(users)@, body.username@)
            && final(users)@ == old(users)@,
        body.valid() ==> (r matches SignupOutcome::Created(u) ==> verifies(
            encode_utf8(config.argon_secret@),
            encode_utf8(body.password@),
            final(users)@.last().password,
        ) && !has_username(
            old(users)@,
            body.username@,
        ) && u.id == old(users)@.len() as u128 && u.username@ == body.username@ && u.created_at
            == now && (exists|salt: Seq<char>|
            final(users)@ == old(users)@.push(
                UserView {
                    id: old(users)@.len() as u128,
                    username: body.username@,
                    password: hashed(
                        encode_utf8(config.argon_secret@),
                        encode_utf8(body.password@),
                        salt,
                    ),
                    created_at: now,
                },
            ))),
{
    if !body.validate() {
        return SignupOutcome::Invalid;
    }
    let password_hash = match hashing::hash_password(
        config.argon_secret.as_str(),
        body.password.as_str(),
    ) {
        None => return SignupOutcome::Internal,
        Some(h) => h,
    };
    match users.insert_user(&body.username, &password_hash, now) {
        None => SignupOutcome::UsernameTaken,
        Some(u) => SignupOutcome::Created(u),
    }
}

/// Signin: validate, look the user up, verify the password under the
/// pepper, run the proactive reuse cleanup for a presented cookie, mint
/// the token pair and persist the fresh session row.
pub fn signin(
    users: &UserStore,
    sessions: &mut SessionStore,
    body: &SignIn,
    cookie: Option<&String>,
    config: &Config,
    now: u64,
) -> (r: SigninOutcome)
    requires
        users.wf(),
        now + config.access_token_ttl_sec <= u64::MAX,
        now + config.refresh_token_ttl_sec <= u64::MAX,
    ensures
        signin_post(
            users@,
            *body,
            opt_view(cookie),
            *config,
            now,
            old(sessions)@,
            final(sessions)@,
            r,
        ),
{
    if !body.validate() {
        return SigninOutcome::Invalid;
    }
    let user = match users.get_user_by_username(&body.username) {
        None => return SigninOutcome::Unauthorized,
        Some(u) => u,
    };
    let ghost j = choose|j: int| 0 <= j < users@.len() && users@[j] == user@;
    proof {
        lemma_unique_username(users@, j, body.username@);
    }
    let ok = hashing::verify_password(
        config.argon_secret.as_str(),
        body.password.as_str(),
        user.password.as_str(),
    );
    if !ok {
        return SigninOutcome::Unauthorized;
    }
    if let Some(c) = cookie {
        let _ = sessions.delete_all_user_sessions_on_reuse(user.id, c);
    }
    let access_exp = now + config.access_token_ttl_sec;
    let refresh_exp = now + config.refresh_token_ttl_sec;
    let mut claims = Claims {
        user: AuthenticatedUser::from_user(&user),
        exp: access_exp,
        nonce: random_nonce(),
    };
    let token = claims.encode(config.access_token_secret.as_str().as_bytes());
    claims.exp = refresh_exp;
    claims.nonce = random_nonce();
    let cookie_value = claims.encode(config.refresh_token_secret.as_str().as_bytes());
    sessions.create_session(user.id, &cookie_value, now);
    SigninOutcome::Granted { token, cookie: cookie_value, user: claims.user }
}

/// Refresh: demand the rotation cookie, run the atomic reuse check, and
/// on a current cookie rotate the session row to a freshly minted refresh
/// token, returning the new pair.
pub fn refresh(
    sessions: &mut SessionStore,
    user: &AuthenticatedUser,
    cookie: Option<&String>,
    config: &Config,
    now: u64,
) -> (r: RefreshOutcome)
    requires
        now + config.access_token_ttl_sec <= u64::MAX,
        now + config.refresh_token_ttl_sec <= u64::MAX,
    ensures
        refresh_post(*user, opt_view(cookie), *config, now, old(sessions)@, final(sessions)@, r),
{
    let c = match cookie {
        None => return RefreshOutcome::Unauthorized { clear_cookie: false },
        Some(c) => c,
    };
    let affected = sessions.delete_all_user_sessions_on_reuse(user.id, c);
    if affected > 0 {
        return RefreshOutcome::Unauthorized { clear_cookie: true };
    }
    let ghost cleaned = sessions@;
    let access_exp = now + config.access_token_ttl_sec;
    let refresh_exp = now + config.refresh_token_ttl_sec;
    let mut claims = Claims { user: user.duplicate(), exp: access_exp, nonce: random_nonce() };
    let token = claims.encode(config.access_token_secret.as_str().as_bytes());
    claims.exp = refresh_exp;
    let first_nonce = random_nonce();
    claims.nonce = first_nonce;
    let mut cookie_value = claims.encode(config.refresh_token_secret.as_str().as_bytes());
    if cookie_value == *c {
        // The mint collided with the presented cookie, which is possible
        // only within the second the cookie itself was minted. A second
        // mint under a different nonce cannot collide too: the claims
        // embed injectively, so two tokens equal to the same string would
        // carry the same nonce.
        claims.nonce = if first_nonce == u64::MAX {
            0
        } else {
            first_nonce + 1
        };
        cookie_value = claims.encode(config.refresh_token_secret.as_str().as_bytes());
    }
    proof {
        assert(cookie_value@ != c@);
    }
    let matched = sessions.update_session(user.id, c, &cookie_value, now);
    if matched == 0 {
        proof {
            lemma_remove_rows_props(cleaned, user.id, c@);
            assert forall|i: int| 0 <= i < cleaned.len() implies rotate_rows(
                cleaned,
                user.id,
                c@,
                cookie_value@,
                now,
            )[i] == cleaned[i] by {
                assert(!(cleaned[i].user_id == user.id && cleaned[i].token == c@));
            }
            assert(rotate_rows(cleaned, user.id, c@, cookie_value@, now) =~= cleaned);
        }
        return RefreshOutcome::Internal;
    }
    RefreshOutcome::Granted { token, cookie: cookie_value, user: claims.user }
}

/// Logout: demand the cookie, delete exactly the matching session row,
/// and on a stale cookie fall back to the defensive reuse cleanup; the
/// caller clears the cookie and reports success either way.
pub fn logout(sessions: &mut SessionStore, user: &AuthenticatedUser, cookie: Option<&String>) -> (r:
    LogoutOutcome)
    ensures
        logout_post(*user, opt_view(cookie), old(sessions)@, final(sessions)@, r),
{
    let c = match cookie {
        None => return LogoutOutcome::Unauthorized,
        Some(c) => c,
    };
    let n = sessions.delete_session(user.id, c);
    if n == 0 {
        proof {
            lemma_remove_rows_props(old(sessions)@, user.id, c@);
        }
        let _ = sessions.delete_all_user_sessions_on_reuse(user.id, c);
    }
    LogoutOutcome::LoggedOut
}

/// After a rotation replaced `t0` by a different `t1`, no session of the
/// user carries `t0` while the rotated row carries `t1`; presenting `t0`
/// again therefore trips the reuse revocation, which removes every
/// session of the user including the fresh `t1` row — so of two refreshes
/// presenting the same token, at most the first is granted, and after the
/// revocation even the fresh token is an orphan whose rotation matches no
/// row.
pub proof fn lemma_rotation_detects_reuse(
    rows: Seq<SessionView>,
    user_id: u128,
    t0: Seq<char>,
    t1: Seq<char>,
    now: u64,
)
    requires
        t0 != t1,
        has_token(rows, user_id, t0),
    ensures
        !has_token(rotate_rows(rows, user_id, t0, t1, now), user_id, t0),
        has_token(rotate_rows(rows, user_id, t0, t1, now), user_id, t1),
        rotate_rows(rows, user_id, t0, t1, now).len() - cleanup_rows(
            rotate_rows(rows, user_id, t0, t1, now),
            user_id,
            t0,
        ).len() > 0,
        cleanup_rows(rotate_rows(rows, user_id, t0, t1, now), user_id, t0) == drop_user_rows(
            rotate_rows(rows, user_id, t0, t1, now),
            user_id,
        ),
        !has_user_row(
            drop_user_rows(rotate_rows(rows, user_id, t0, t1, now), user_id),
            user_id,
        ),
        match_count(
            drop_user_rows(rotate_rows(rows, user_id, t0, t1, now), user_id),
            user_id,
            t1,
        ) == 0,
{
    let rotated = rotate_rows(rows, user_id, t0, t1, now);
    assert(rotated.len() == rows.len());
    let w = choose|i: int|
        0 <= i < rows.len() && rows[i].user_id == user_id && rows[i].token == t0;
    assert(rotated[w].user_id == user_id && rotated[w].token == t1);
    assert(!has_token(rotated, user_id, t0)) by {
        assert forall|i: int|
            0 <= i < rotated.len() && (#[trigger] rotated[i]).user_id == user_id implies rotated[i].token
            != t0 by {
            if rows[i].user_id == user_id && rows[i].token == t0 {
                assert(rotated[i].token == t1);
            }
        }
    }
    lemma_cleanup(rotated, user_id, t0);
    let dropped = drop_user_rows(rotated, user_id);
    lemma_drop_user_rows_props(rotated, user_id);
    lemma_remove_rows_props(dropped, user_id, t1);
    assert(!has_token(dropped, user_id, t1));
}

/// Two refreshes presenting the same cookie, the first granted: the
/// second call is denied with the cookie cleared, and every session of
/// the user is revoked — at most one caller wins, and reuse of the
/// replaced token nukes the lineage. No side condition: refresh itself
/// guarantees that the cookie it hands out differs from the one it took.
pub proof fn lemma_refresh_reuse_is_denied(
    u: AuthenticatedUser,
    c: Seq<char>,
    config: Config,
    now1: u64,
    now2: u64,
    s0: Seq<SessionView>,
    s1: Seq<SessionView>,
    s2: Seq<SessionView>,
    r1: RefreshOutcome,
    r2: RefreshOutcome,
)
    requires
        refresh_post(u, Some(c), config, now1, s0, s1, r1),
        r1 is Granted,
        refresh_post(u, Some(c), config, now2, s1, s2, r2),
    ensures
        r2 matches RefreshOutcome::Unauthorized { clear_cookie: true },
        s2 == drop_user_rows(s1, u.id),
{
    let ck1 = r1->Granted_cookie;
    let cleaned0 = cleanup_rows(s0, u.id, c);
    // The first call was granted, so its reuse check passed and its
    // rotation matched a row carrying the presented cookie, replacing it
    // with a value the contract says differs from the cookie.
    assert(s0.len() - cleaned0.len() == 0);
    lemma_remove_rows_props(cleaned0, u.id, c);
    assert(match_count(cleaned0, u.id, c) > 0);
    assert(has_token(cleaned0, u.id, c));
    assert(ck1@ != c);
    assert(s1 == rotate_rows(cleaned0, u.id, c, ck1@, now1));
    lemma_rotation_detects_reuse(cleaned0, u.id, c, ck1@, now1);
    // The rotated table carries the fresh token, so the user still has a
    // row, but none carries the replaced cookie: the second reuse check
    // revokes everything.
    assert(has_user_row(s1, u.id)) by {
        let w = choose|i: int|
            0 <= i < s1.len() && s1[i].user_id == u.id && s1[i].token == ck1@;
        assert(s1[w].user_id == u.id);
    }
    lemma_cleanup(s1, u.id, c);
    assert(s1.len() - cleanup_rows(s1, u.id, c).len() > 0);
}

/// A record whose stored hash verifies against the credentials now
/// presented — which signup's contract guarantees of the hash it stores —
/// is never rejected: signin with the password that signup stored is
/// granted.
pub proof fn lemma_signup_then_signin_grants(
    u: UserView,
    body: SignIn,
    cookie: Option<Seq<char>>,
    config: Config,
    now: u64,
    before: Seq<SessionView>,
    after: Seq<SessionView>,
    r: SigninOutcome,
)
    requires
        signin_found_post(u, body, cookie, config, now, before, after, r),
        verifies(
            encode_utf8(config.argon_secret@),
            encode_utf8(body.password@),
            u.password,
        ),
    ensures
        r is Granted,
{
}

/// Logout with a cookie deletes exactly the rows carrying that token:
/// every session with a different token or of a different user survives
/// — in particular a second, independent session of the same user.
pub proof fn lemma_logout_deletes_exactly(
    rows: Seq<SessionView>,
    user_id: u128,
    t: Seq<char>,
    other_user: u128,
    t2: Seq<char>,
)
    requires
        has_token(rows, other_user, t2),
        other_user != user_id || t2 != t,
    ensures
        forall|i: int|
            0 <= i < remove_rows(rows, user_id, t).len()
                ==> !((#[trigger] remove_rows(rows, user_id, t)[i]).user_id == user_id
                && remove_rows(rows, user_id, t)[i].token == t),
        has_token(remove_rows(rows, user_id, t), other_user, t2),
{
    lemma_remove_rows_props(rows, user_id, t);
    let w = choose|i: int|
        0 <= i < rows.len() && rows[i].user_id == other_user && rows[i].token == t2;
    assert(remove_rows(rows, user_id, t).contains(rows[w]));
}

} // verus!
