//! The persistence model: user records and refresh-session rows behind an
//! append/compare/delete interface with exact contracts.
use vstd::prelude::*;
use vstd::string::*;
use crate::auth::{AuthenticatedUser, User};

verus! {

/// One refresh-session row: at most one live token value per row; the
/// row's token value is the single source of truth for currency.
pub struct Session {
    pub user_id: u128,
    pub token: String,
    pub created_at: u64,
}

/// Ghost image of a session row.
pub ghost struct SessionView {
    pub user_id: u128,
    pub token: Seq<char>,
    pub created_at: u64,
}

impl View for Session {
    type V = SessionView;

    open spec fn view(&self) -> SessionView {
        SessionView { user_id: self.user_id, token: self.token@, created_at: self.created_at }
    }
}

/// Ghost image of a user record.
pub ghost struct UserView {
    pub id: u128,
    pub username: Seq<char>,
    pub password: Seq<char>,
    pub created_at: u64,
}

impl View for User {
    type V = UserView;

    open spec fn view(&self) -> UserView {
        UserView {
            id: self.id,
            username: self.username@,
            password: self.password@,
            created_at: self.created_at,
        }
    }
}

/// The ghost images of a sequence of session rows.
pub open spec fn session_views(rows: Seq<Session>) -> Seq<SessionView> {
    rows.map_values(|s: Session| s@)
}

/// The ghost images of a sequence of user records.
pub open spec fn user_views(rows: Seq<User>) -> Seq<UserView> {
    rows.map_values(|u: User| u@)
}

/// Whether some row belongs to `user_id` and carries exactly `token`.
pub open spec fn has_token(rows: Seq<SessionView>, user_id: u128, token: Seq<char>) -> bool {
    exists|i: int|
        0 <= i < rows.len() && rows[i].user_id == user_id && rows[i].token == token
}

/// Whether `user_id` owns any row at all.
pub open spec fn has_user_row(rows: Seq<SessionView>, user_id: u128) -> bool {
    exists|i: int| 0 <= i < rows.len() && rows[i].user_id == user_id
}

/// Every row except those belonging to `user_id`, in order.
pub open spec fn drop_user_rows(rows: Seq<SessionView>, user_id: u128) -> Seq<SessionView> {
    rows.filter(|r: SessionView| r.user_id != user_id)
}

/// Every row except those matching (`user_id`, `token`) exactly, in order.
pub open spec fn remove_rows(
    rows: Seq<SessionView>,
    user_id: u128,
    token: Seq<char>,
) -> Seq<SessionView> {
    rows.filter(|r: SessionView| !(r.user_id == user_id && r.token == token))
}

/// How many rows match (`user_id`, `token`) exactly.
pub open spec fn match_count(rows: Seq<SessionView>, user_id: u128, token: Seq<char>) -> int {
    rows.len() - remove_rows(rows, user_id, token).len()
}

/// The reuse-check-and-revoke primitive: if the presented token is current
/// for this user the table is untouched; otherwise every session of the
/// user is removed.
pub open spec fn cleanup_rows(
    rows: Seq<SessionView>,
    user_id: u128,
    token: Seq<char>,
) -> Seq<SessionView> {
    if has_token(rows, user_id, token) {
        rows
    } else {
        drop_user_rows(rows, user_id)
    }
}

/// Rotation: every row matching (`user_id`, `old_token`) is replaced in
/// place by one carrying `new_token` with a refreshed timestamp.
pub open spec fn rotate_rows(
    rows: Seq<SessionView>,
    user_id: u128,
    old_token: Seq<char>,
    new_token: Seq<char>,
    now: u64,
) -> Seq<SessionView> {
    rows.map_values(
        |r: SessionView|
            if r.user_id == user_id && r.token == old_token {
                SessionView { user_id: r.user_id, token: new_token, created_at: now }
            } else {
                r
            },
    )
}

/// One step of a row walk: what extending a prefix of `rows` by the row
/// at `i` does to the two filters.
proof fn lemma_take_step(rows: Seq<SessionView>, i: int, user_id: u128, token: Seq<char>)
    requires
        0 <= i < rows.len(),
    ensures
        drop_user_rows(rows.take(i + 1), user_id) == (if rows[i].user_id != user_id {
            drop_user_rows(rows.take(i), user_id).push(rows[i])
        } else {
            drop_user_rows(rows.take(i), user_id)
        }),
        remove_rows(rows.take(i + 1), user_id, token) == (if !(rows[i].user_id == user_id
            && rows[i].token == token) {
            remove_rows(rows.take(i), user_id, token).push(rows[i])
        } else {
            remove_rows(rows.take(i), user_id, token)
        }),
{
    reveal(Seq::filter);
    assert(rows.take(i + 1).drop_last() =~= rows.take(i));
    assert(rows.take(i + 1).last() == rows[i]);
}

/// What dropping a user's rows keeps: only rows of other users, all of
/// them, in order; and it keeps everything exactly when the user had no
/// rows.
pub proof fn lemma_drop_user_rows_props(rows: Seq<SessionView>, user_id: u128)
    ensures
        drop_user_rows(rows, user_id).len() <= rows.len(),
        drop_user_rows(rows, user_id).len() == rows.len() <==> !has_user_row(rows, user_id),
        drop_user_rows(rows, user_id).len() == rows.len() ==> drop_user_rows(rows, user_id)
            == rows,
        forall|i: int|
            0 <= i < drop_user_rows(rows, user_id).len()
                ==> (#[trigger] drop_user_rows(rows, user_id)[i]).user_id != user_id,
        forall|i: int|
            0 <= i < rows.len() && (#[trigger] rows[i]).user_id != user_id ==> drop_user_rows(
                rows,
                user_id,
            ).contains(rows[i]),
    decreases rows.len(),
{
    reveal(Seq::filter);
    if rows.len() == 0 {
        assert(rows =~= Seq::<SessionView>::empty());
    } else {
        let dl = rows.drop_last();
        lemma_drop_user_rows_props(dl, user_id);
        assert(forall|i: int| 0 <= i < dl.len() ==> dl[i] == rows[i]);
        if drop_user_rows(rows, user_id).len() == rows.len() {
            assert(drop_user_rows(rows, user_id) =~= rows);
        }
        if !has_user_row(rows, user_id) {
            assert(dl.len() < rows.len());
        }
        assert(forall|i: int|
            0 <= i < rows.len() && (#[trigger] rows[i]).user_id != user_id && i < rows.len() - 1
                ==> drop_user_rows(dl, user_id).contains(rows[i]));
    }
}

/// What deleting the rows that match a (user, token) pair exactly keeps:
/// every non-matching row and no matching one, in order; it keeps
/// everything exactly when no row matched.
pub proof fn lemma_remove_rows_props(rows: Seq<SessionView>, user_id: u128, token: Seq<char>)
    ensures
        remove_rows(rows, user_id, token).len() <= rows.len(),
        remove_rows(rows, user_id, token).len() == rows.len() <==> !has_token(
            rows,
            user_id,
            token,
        ),
        remove_rows(rows, user_id, token).len() == rows.len() ==> remove_rows(
            rows,
            user_id,
            token,
        ) == rows,
        forall|i: int|
            0 <= i < remove_rows(rows, user_id, token).len()
                ==> !((#[trigger] remove_rows(rows, user_id, token)[i]).user_id == user_id
                && remove_rows(rows, user_id, token)[i].token == token),
        forall|i: int|
            0 <= i < rows.len() && !((#[trigger] rows[i]).user_id == user_id && rows[i].token
                == token) ==> remove_rows(rows, user_id, token).contains(rows[i]),
    decreases rows.len(),
{
    reveal(Seq::filter);
    if rows.len() == 0 {
        assert(rows =~= Seq::<SessionView>::empty());
    } else {
        let dl = rows.drop_last();
        lemma_remove_rows_props(dl, user_id, token);
        assert(forall|i: int| 0 <= i < dl.len() ==> dl[i] == rows[i]);
        if remove_rows(rows, user_id, token).len() == rows.len() {
            assert(remove_rows(rows, user_id, token) =~= rows);
        }
        if !has_token(rows, user_id, token) {
            assert(dl.len() < rows.len());
        }
        assert(forall|i: int|
            0 <= i < rows.len() && !((#[trigger] rows[i]).user_id == user_id && rows[i].token
                == token) && i < rows.len() - 1 ==> remove_rows(dl, user_id, token).contains(
                rows[i],
            ));
    }
}

/// The reuse cleanup touches nothing when the token is current, and
/// otherwise removes the user's rows and only those; the affected count is
/// positive exactly when the token is stale and the user still had rows.
pub proof fn lemma_cleanup(rows: Seq<SessionView>, user_id: u128, token: Seq<char>)
    ensures
        cleanup_rows(rows, user_id, token).len() <= rows.len(),
        has_token(rows, user_id, token) ==> cleanup_rows(rows, user_id, token) == rows,
        !has_token(rows, user_id, token) ==> forall|i: int|
            0 <= i < cleanup_rows(rows, user_id, token).len()
                ==> (#[trigger] cleanup_rows(rows, user_id, token)[i]).user_id != user_id,
        rows.len() - cleanup_rows(rows, user_id, token).len() > 0 <==> (!has_token(
            rows,
            user_id,
            token,
        ) && has_user_row(rows, user_id)),
        rows.len() == cleanup_rows(rows, user_id, token).len() ==> cleanup_rows(
            rows,
            user_id,
            token,
        ) == rows,
{
    lemma_drop_user_rows_props(rows, user_id);
}

/// The session table.
pub struct SessionStore {
    rows: Vec<Session>,
}

impl View for SessionStore {
    type V = Seq<SessionView>;

    closed spec fn view(&self) -> Seq<SessionView> {
        session_views(self.rows@)
    }
}

impl SessionStore {
    /// An empty table.
    pub fn new() -> (s: SessionStore)
        ensures
            s@ == Seq::<SessionView>::empty(),
    {
        let s = SessionStore { rows: Vec::new() };
        proof {
            assert(s@ =~= Seq::<SessionView>::empty());
        }
        s
    }

    /// Unconditional insert of a fresh session row; concurrent signins for
    /// one user legitimately stack independent rows.
    pub fn create_session(&mut self, user_id: u128, token: &String, now: u64)
        ensures
            final(self)@ == old(self)@.push(
                SessionView { user_id, token: token@, created_at: now },
            ),
    {
        let ghost before = self.rows@;
        self.rows.push(Session { user_id, token: token.clone(), created_at: now });
        proof {
            assert(session_views(self.rows@) =~= session_views(before).push(
                SessionView { user_id, token: token@, created_at: now },
            ));
        }
    }

    /// The reuse-check-and-revoke primitive of the protocol: delete every
    /// row of `user_id` unless some row of this user currently carries
    /// exactly `token`; returns the number of rows removed.
    pub fn delete_all_user_sessions_on_reuse(&mut self, user_id: u128, token: &String) -> (n:
        usize)
        ensures
            final(self)@ == cleanup_rows(old(self)@, user_id, token@),
            n == old(self)@.len() - final(self)@.len(),
    {
        let ghost all = self@;
        let mut present = false;
        let mut i: usize = 0;
        while i < self.rows.len()
            invariant
                all == session_views(self.rows@),
                i <= self.rows@.len(),
                present == has_token(all.take(i as int), user_id, token@),
            decreases self.rows@.len() - i,
        {
            let r = &self.rows[i];
            proof {
                assert(all[i as int] == self.rows@[i as int]@);
                assert(all.take(i + 1).drop_last() =~= all.take(i as int));
                assert(all.take(i + 1).last() == all[i as int]);
            }
            if r.user_id == user_id && r.token == *token {
                present = true;
                proof {
                    assert(all.take(i + 1)[i as int] == all[i as int]);
                }
            }
            proof {
                if !present {
                    assert(forall|j: int|
                        0 <= j < i + 1 && (all.take(i + 1)[j].user_id == user_id && all.take(
                            i + 1,
                        )[j].token == token@) ==> all.take(i as int)[j] == all.take(i + 1)[j]);
                }
            }
            i += 1;
        }
        proof {
            assert(all.take(all.len() as int) =~= all);
        }
        if present {
            return 0;
        }
        let before_len = self.rows.len();
        let mut kept: Vec<Session> = Vec::new();
        let mut j: usize = 0;
        while j < self.rows.len()
            invariant
                all == session_views(self.rows@),
                j <= self.rows@.len(),
                session_views(kept@) == drop_user_rows(all.take(j as int), user_id),
                kept@.len() <= j,
            decreases self.rows@.len() - j,
        {
            let ghost prefix = all.take(j as int);
            let r = &self.rows[j];
            proof {
                assert(all[j as int] == self.rows@[j as int]@);
                lemma_take_step(all, j as int, user_id, token@);
            }
            if r.user_id != user_id {
                let ghost kept_before = kept@;
                kept.push(
                    Session { user_id: r.user_id, token: r.token.clone(), created_at: r.created_at },
                );
                proof {
                    assert(session_views(kept@) =~= session_views(kept_before).push(all[j as int]));
                }
            }
            j += 1;
        }
        proof {
            assert(all.take(all.len() as int) =~= all);
            lemma_cleanup(all, user_id, token@);
        }
        let n = before_len - kept.len();
        self.rows = kept;
        n
    }

    /// Rotate every row matching (`user_id`, `old_token`) to `new_token`
    /// with a refreshed timestamp; returns how many rows matched.
    pub fn update_session(
        &mut self,
        user_id: u128,
        old_token: &String,
        new_token: &String,
        now: u64,
    ) -> (n: usize)
        ensures
            final(self)@ == rotate_rows(old(self)@, user_id, old_token@, new_token@, now),
            n == match_count(old(self)@, user_id, old_token@),
    {
        let ghost all = self@;
        let mut out: Vec<Session> = Vec::new();
        let mut n: usize = 0;
        let mut i: usize = 0;
        while i < self.rows.len()
            invariant
                all == session_views(self.rows@),
                i <= self.rows@.len(),
                session_views(out@) == rotate_rows(
                    all.take(i as int),
                    user_id,
                    old_token@,
                    new_token@,
                    now,
                ),
                out@.len() == i,
                n == match_count(all.take(i as int), user_id, old_token@),
                n <= i,
            decreases self.rows@.len() - i,
        {
            let ghost prefix = all.take(i as int);
            let r = &self.rows[i];
            proof {
                assert(all[i as int] == self.rows@[i as int]@);
                lemma_take_step(all, i as int, user_id, old_token@);
            }
            let ghost out_before = out@;
            if r.user_id == user_id && r.token == *old_token {
                out.push(Session { user_id: r.user_id, token: new_token.clone(), created_at: now });
                n += 1;
                proof {
                    assert(session_views(out@) =~= session_views(out_before).push(
                        SessionView { user_id: all[i as int].user_id, token: new_token@, created_at: now },
                    ));
                }
            } else {
                out.push(
                    Session { user_id: r.user_id, token: r.token.clone(), created_at: r.created_at },
                );
                proof {
                    assert(session_views(out@) =~= session_views(out_before).push(all[i as int]));
                }
            }
            proof {
                assert(rotate_rows(all.take(i + 1), user_id, old_token@, new_token@, now)
                    =~= rotate_rows(prefix, user_id, old_token@, new_token@, now).push(
                    if all[i as int].user_id == user_id && all[i as int].token == old_token@ {
                        SessionView { user_id: all[i as int].user_id, token: new_token@, created_at: now }
                    } else {
                        all[i as int]
                    },
                ));
            }
            i += 1;
        }
        proof {
            assert(all.take(all.len() as int) =~= all);
        }
        self.rows = out;
        n
    }

    /// Delete the rows matching (`user_id`, `token`) exactly; returns how
    /// many were removed.
    pub fn delete_session(&mut self, user_id: u128, token: &String) -> (n: usize)
        ensures
            final(self)@ == remove_rows(old(self)@, user_id, token@),
            n == match_count(old(self)@, user_id, token@),
    {
        let ghost all = self@;
        let mut kept: Vec<Session> = Vec::new();
        let mut n: usize = 0;
        let mut i: usize = 0;
        while i < self.rows.len()
            invariant
                all == session_views(self.rows@),
                i <= self.rows@.len(),
                session_views(kept@) == remove_rows(all.take(i as int), user_id, token@),
                n == match_count(all.take(i as int), user_id, token@),
                n + kept@.len() == i,
            decreases self.rows@.len() - i,
        {
            let ghost prefix = all.take(i as int);
            let r = &self.rows[i];
            proof {
                assert(all[i as int] == self.rows@[i as int]@);
                lemma_take_step(all, i as int, user_id, token@);
            }
            if r.user_id == user_id && r.token == *token {
                n += 1;
            } else {
                let ghost kept_before = kept@;
                kept.push(
                    Session { user_id: r.user_id, token: r.token.clone(), created_at: r.created_at },
                );
                proof {
                    assert(session_views(kept@) =~= session_views(kept_before).push(all[i as int]));
                }
            }
            i += 1;
        }
        proof {
            assert(all.take(all.len() as int) =~= all);
        }
        self.rows = kept;
        n
    }
}

/// Whether some record carries `username`.
pub open spec fn has_username(users: Seq<UserView>, username: Seq<char>) -> bool {
    exists|i: int| 0 <= i < users.len() && users[i].username == username
}

/// Well-formed user table: ids are the insertion positions (hence unique)
/// and usernames are pairwise distinct (the unique key).
pub open spec fn users_wf(users: Seq<UserView>) -> bool {
    &&& forall|i: int| 0 <= i < users.len() ==> (#[trigger] users[i]).id == i as u128
    &&& forall|i: int, j: int|
        0 <= i < users.len() && 0 <= j < users.len() && i != j ==> (#[trigger] users[i]).username
            != (#[trigger] users[j]).username
}

/// In a well-formed table at most one record carries a given username.
pub proof fn lemma_unique_username(users: Seq<UserView>, j: int, name: Seq<char>)
    requires
        users_wf(users),
        0 <= j < users.len(),
        users[j].username == name,
    ensures
        forall|i: int| 0 <= i < users.len() && (#[trigger] users[i]).username == name ==> i == j,
{
}

/// The user table.
pub struct UserStore {
    users: Vec<User>,
}

impl View for UserStore {
    type V = Seq<UserView>;

    closed spec fn view(&self) -> Seq<UserView> {
        user_views(self.users@)
    }
}

impl UserStore {
    /// Well-formedness of the table's contents.
    pub open spec fn wf(&self) -> bool {
        users_wf(self@)
    }

    /// An empty table.
    pub fn new() -> (s: UserStore)
        ensures
            s@ == Seq::<UserView>::empty(),
            s.wf(),
    {
        let s = UserStore { users: Vec::new() };
        proof {
            assert(s@ =~= Seq::<UserView>::empty());
        }
        s
    }

    /// Insert a fresh user record; refuses a taken username (the unique
    /// key) and otherwise returns the token-safe projection.
    pub fn insert_user(&mut self, username: &String, password_hash: &String, now: u64) -> (r:
        Option<AuthenticatedUser>)
        requires
            old(self).wf(),
        ensures
            final(self).wf(),
            has_username(old(self)@, username@) ==> r is None && final(self)@ == old(self)@,
            !has_username(old(self)@, username@) ==> final(self)@ == old(self)@.push(
                UserView {
                    id: old(self)@.len() as u128,
                    username: username@,
                    password: password_hash@,
                    created_at: now,
                },
            ) && (r matches Some(u) && u.id == old(self)@.len() as u128 && u.username@ == username@
                && u.created_at == now),
    {
        let mut i: usize = 0;
        while i < self.users.len()
            invariant
                *self == *old(self),
                self.wf(),
                self@ == user_views(self.users@),
                i <= self.users@.len(),
                forall|k: int| 0 <= k < i ==> (#[trigger] self@[k]).username != username@,
            decreases self.users@.len() - i,
        {
            proof {
                assert(self@[i as int] == self.users@[i as int]@);
            }
            if self.users[i].username == *username {
                return None;
            }
            i += 1;
        }
        let id_val = self.users.len() as u128;
        let ghost before = self.users@;
        self.users.push(
            User {
                id: id_val,
                username: username.clone(),
                password: password_hash.clone(),
                created_at: now,
            },
        );
        proof {
            assert(user_views(self.users@) =~= user_views(before).push(
                UserView {
                    id: id_val,
                    username: username@,
                    password: password_hash@,
                    created_at: now,
                },
            ));
        }
        Some(AuthenticatedUser { id: id_val, username: username.clone(), created_at: now })
    }

    /// Look a user up by the unique username; clones the record.
    pub fn get_user_by_username(&self, username: &String) -> (r: Option<User>)
        ensures
            r is Some <==> has_username(self@, username@),
            r matches Some(u) ==> u.username@ == username@ && exists|i: int|
                0 <= i < self@.len() && self@[i] == u@,
    {
        let mut i: usize = 0;
        while i < self.users.len()
            invariant
                self@ == user_views(self.users@),
                i <= self.users@.len(),
                forall|k: int| 0 <= k < i ==> (#[trigger] self@[k]).username != username@,
            decreases self.users@.len() - i,
        {
            proof {
                assert(self@[i as int] == self.users@[i as int]@);
            }
            let u = &self.users[i];
            if u.username == *username {
                let found = User {
                    id: u.id,
                    username: u.username.clone(),
                    password: u.password.clone(),
                    created_at: u.created_at,
                };
                proof {
                    assert(found@ == self@[i as int]);
                }
                return Some(found);
            }
            i += 1;
        }
        None
    }
}

} // verus!
