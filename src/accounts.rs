use vstd::prelude::*;
use vstd::utf8::encode_utf8;

use crate::errors::MyError;
use crate::text::same_text;
use crate::user::{
    argon2_accepts, email_ok, signup_refusal, validate_password, validate_signup, CreateUserForm, Session,
    UserLogin, UserWithSession,
};

verus! {

/// How long a session lasts, in seconds.
pub const SESSION_SECONDS: i64 = 86400;

/// A registered user and the Argon2 hash of their password.
pub struct UserRecord {
    pub user_id: u128,
    pub username: String,
    pub email_id: String,
    pub hashed_pass: String,
}

/// The abstract form of a registered user.
pub struct UserView {
    pub user_id: u128,
    pub username: Seq<char>,
    pub email_id: Seq<char>,
    pub hashed_pass: Seq<char>,
}

impl View for UserRecord {
    type V = UserView;

    open spec fn view(&self) -> UserView {
        UserView {
            user_id: self.user_id,
            username: self.username@,
            email_id: self.email_id@,
            hashed_pass: self.hashed_pass@,
        }
    }
}

/// A session of a user, valid until `expiry` (seconds since the epoch).
#[derive(Clone, Copy, Debug, PartialEq, Eq)]
pub struct SessionRecord {
    pub session_id: u128,
    pub user_id: u128,
    pub expiry: i64,
}

/// The registered users and their sessions.
pub struct Accounts {
    users: Vec<UserRecord>,
    sessions: Vec<SessionRecord>,
}

/// The abstract state of `Accounts`.
pub struct AccountsView {
    pub users: Seq<UserView>,
    pub sessions: Seq<SessionRecord>,
}

impl View for Accounts {
    type V = AccountsView;

    closed spec fn view(&self) -> AccountsView {
        AccountsView { users: self.users@.map_values(|u: UserRecord| u@), sessions: self.sessions@ }
    }
}

/// Some user has the name `name` or the e-mail address `email`.
pub open spec fn name_or_email_taken(users: Seq<UserView>, name: Seq<char>, email: Seq<char>) -> bool {
    exists|k: int| 0 <= k < users.len() && ((#[trigger] users[k]).username == name || users[k].email_id == email)
}

/// Some user has the id `id`.
pub open spec fn user_id_taken(users: Seq<UserView>, id: u128) -> bool {
    exists|k: int| 0 <= k < users.len() && (#[trigger] users[k]).user_id == id
}

/// Some session has the id `id`.
pub open spec fn session_taken(sessions: Seq<SessionRecord>, id: u128) -> bool {
    exists|k: int| 0 <= k < sessions.len() && (#[trigger] sessions[k]).session_id == id
}

/// The session `id` exists and has not expired at `now`.
pub open spec fn session_live(sessions: Seq<SessionRecord>, id: u128, now: i64) -> bool {
    exists|k: int| 0 <= k < sessions.len() && (#[trigger] sessions[k]).session_id == id && sessions[k].expiry > now
}

/// The user of session `id`.
pub open spec fn session_user(sessions: Seq<SessionRecord>, id: u128) -> u128 {
    sessions[choose|k: int| 0 <= k < sessions.len() && (#[trigger] sessions[k]).session_id == id].user_id
}

/// The expiry of a session opened at `now`.
pub open spec fn expiry_after(now: i64) -> i64 {
    if now <= i64::MAX - SESSION_SECONDS { (now + SESSION_SECONDS) as i64 } else { i64::MAX }
}

/// The sessions that keep only those for which `keep` holds.
pub open spec fn sessions_where(s: Seq<SessionRecord>, keep: spec_fn(SessionRecord) -> bool) -> Seq<SessionRecord>
    decreases s.len(),
{
    if s.len() == 0 {
        s
    } else {
        let rest = sessions_where(s.drop_last(), keep);
        if keep(s.last()) { rest.push(s.last()) } else { rest }
    }
}

/// Keeps sessions that have not expired at `now`.
pub open spec fn not_expired(now: i64) -> spec_fn(SessionRecord) -> bool {
    |s: SessionRecord| s.expiry >= now
}

/// Keeps sessions other than `id`.
pub open spec fn not_session(id: u128) -> spec_fn(SessionRecord) -> bool {
    |s: SessionRecord| s.session_id != id
}

/// Some user has the name `name`.
pub open spec fn user_named(users: Seq<UserView>, name: Seq<char>) -> bool {
    exists|k: int| 0 <= k < users.len() && (#[trigger] users[k]).username == name
}

/// The user named `name`, where there is one.
pub open spec fn named_user(users: Seq<UserView>, name: Seq<char>) -> UserView {
    users[choose|k: int| 0 <= k < users.len() && (#[trigger] users[k]).username == name]
}

/// The state after dropping the sessions that expired at `now`.
pub open spec fn swept(a: AccountsView, now: i64) -> AccountsView {
    AccountsView { users: a.users, sessions: sessions_where(a.sessions, not_expired(now)) }
}

/// Users are keyed by id, by name and by e-mail address; sessions by id.
pub open spec fn accounts_wf(a: AccountsView) -> bool {
    &&& forall|i: int, j: int| 0 <= i < a.users.len() && 0 <= j < a.users.len() && i != j ==> {
        &&& (#[trigger] a.users[i]).user_id != (#[trigger] a.users[j]).user_id
        &&& a.users[i].username != a.users[j].username
        &&& a.users[i].email_id != a.users[j].email_id
    }
    &&& forall|i: int, j: int| 0 <= i < a.sessions.len() && 0 <= j < a.sessions.len() && i != j
        ==> (#[trigger] a.sessions[i]).session_id != (#[trigger] a.sessions[j]).session_id
}

proof fn lemma_sessions_where(s: Seq<SessionRecord>, keep: spec_fn(SessionRecord) -> bool)
    requires
        forall|i: int, j: int| 0 <= i < s.len() && 0 <= j < s.len() && i != j
            ==> (#[trigger] s[i]).session_id != (#[trigger] s[j]).session_id,
    ensures
        forall|i: int, j: int| 0 <= i < sessions_where(s, keep).len() && 0 <= j < sessions_where(s, keep).len() && i != j
            ==> (#[trigger] sessions_where(s, keep)[i]).session_id != (#[trigger] sessions_where(s, keep)[j]).session_id,
        forall|a: int| 0 <= a < sessions_where(s, keep).len() ==> s.contains(#[trigger] sessions_where(s, keep)[a]),
        forall|a: int| 0 <= a < sessions_where(s, keep).len() ==> keep(#[trigger] sessions_where(s, keep)[a]),
    decreases s.len(),
{
    if s.len() > 0 {
        let s0 = s.drop_last();
        assert forall|i: int, j: int| 0 <= i < s0.len() && 0 <= j < s0.len() && i != j implies
            (#[trigger] s0[i]).session_id != (#[trigger] s0[j]).session_id by {
            assert(s0[i] == s[i] && s0[j] == s[j]);
        }
        lemma_sessions_where(s0, keep);
        let r0 = sessions_where(s0, keep);
        let r = sessions_where(s, keep);
        let n = s.len() - 1;
        assert forall|a: int| 0 <= a < r0.len() implies s.contains(#[trigger] r0[a]) by {
            let b = choose|b: int| 0 <= b < s0.len() && s0[b] == r0[a];
            assert(s[b] == r0[a]);
        }
        if keep(s.last()) {
            assert forall|a: int| 0 <= a < r.len() implies s.contains(#[trigger] r[a]) && keep(r[a]) by {
                if a < r0.len() {
                    assert(r[a] == r0[a]);
                } else {
                    assert(s[n] == r[a]);
                }
            }
            assert forall|i: int, j: int| 0 <= i < r.len() && 0 <= j < r.len() && i != j implies
                (#[trigger] r[i]).session_id != (#[trigger] r[j]).session_id by {
                if i < r0.len() && j < r0.len() {
                    assert(r[i] == r0[i] && r[j] == r0[j]);
                } else if i < r0.len() {
                    let b = choose|b: int| 0 <= b < s0.len() && s0[b] == r0[i];
                    assert(r[i] == r0[i] && s[b] == r0[i]);
                } else if j < r0.len() {
                    let b = choose|b: int| 0 <= b < s0.len() && s0[b] == r0[j];
                    assert(r[j] == r0[j] && s[b] == r0[j]);
                }
            }
        }
    }
}

impl Accounts {
    /// The invariant of the accounts.
    pub open spec fn wf(&self) -> bool {
        accounts_wf(self@)
    }

    /// No users and no sessions.
    pub fn new() -> (r: Accounts)
        ensures
            r.wf(),
            r@.users.len() == 0,
            r@.sessions.len() == 0,
    {
        let r = Accounts { users: Vec::new(), sessions: Vec::new() };
        assert(r@.users =~= Seq::<UserView>::empty());
        r
    }

    fn find_session(&self, id: u128) -> (r: Option<usize>)
        requires
            self.wf(),
        ensures
            match r {
                Some(k) => k < self@.sessions.len() && self@.sessions[k as int].session_id == id
                    && session_user(self@.sessions, id) == self@.sessions[k as int].user_id,
                None => !session_taken(self@.sessions, id),
            },
    {
        let mut i: usize = 0;
        while i < self.sessions.len()
            invariant
                self.wf(),
                i <= self.sessions.len(),
                forall|k: int| 0 <= k < i ==> (#[trigger] self.sessions@[k]).session_id != id,
            decreases self.sessions.len() - i,
        {
            if self.sessions[i].session_id == id {
                proof {
                    let s = self@.sessions;
                    assert(s[i as int].session_id == id);
                    let c = choose|c: int| 0 <= c < s.len() && (#[trigger] s[c]).session_id == id;
                    if c != i as int {
                        assert(s[c].session_id != s[i as int].session_id);
                    }
                }
                return Some(i);
            }
            i = i + 1;
        }
        None
    }

    /// The user behind session `session_id`, where it exists and has not
    /// expired at `now`.
    pub fn check_session_validity(&self, session_id: u128, now: i64) -> (r: Option<UserWithSession>)
        requires
            self.wf(),
        ensures
            r == (if session_live(self@.sessions, session_id, now) {
                Some(UserWithSession { session_id, user_id: session_user(self@.sessions, session_id) })
            } else {
                None
            }),
    {
        match self.find_session(session_id) {
            Some(k) => {
                proof {
                    let s = self@.sessions;
                    if session_live(s, session_id, now) {
                        let c = choose|c: int| 0 <= c < s.len() && (#[trigger] s[c]).session_id == session_id && s[c].expiry > now;
                        if c != k as int {
                            assert(s[c].session_id != s[k as int].session_id);
                        }
                    }
                }
                if self.sessions[k].expiry > now {
                    Some(UserWithSession { session_id, user_id: self.sessions[k].user_id })
                } else {
                    None
                }
            },
            None => None,
        }
    }

    fn keep_sessions(&mut self, keep_after: Option<i64>, drop_id: u128)
        requires
            old(self).wf(),
        ensures
            final(self).wf(),
            final(self)@.users == old(self)@.users,
            final(self)@.sessions == match keep_after {
                Some(now) => sessions_where(old(self)@.sessions, not_expired(now)),
                None => sessions_where(old(self)@.sessions, not_session(drop_id)),
            },
    {
        let ghost s0 = self@.sessions;
        let ghost keep = match keep_after {
            Some(now) => not_expired(now),
            None => not_session(drop_id),
        };
        let mut kept: Vec<SessionRecord> = Vec::new();
        let mut i: usize = 0;
        while i < self.sessions.len()
            invariant
                self@ == old(self)@,
                self@.sessions == s0,
                keep == match keep_after {
                    Some(now) => not_expired(now),
                    None => not_session(drop_id),
                },
                i <= self.sessions.len(),
                kept@ == sessions_where(s0.subrange(0, i as int), keep),
            decreases self.sessions.len() - i,
        {
            let s = self.sessions[i];
            proof {
                assert(s0.subrange(0, i + 1).drop_last() =~= s0.subrange(0, i as int));
                assert(s0.subrange(0, i + 1).last() == s);
            }
            let keep_it = match keep_after {
                Some(now) => s.expiry >= now,
                None => s.session_id != drop_id,
            };
            if keep_it {
                kept.push(s);
            }
            i = i + 1;
        }
        proof {
            assert(s0.subrange(0, s0.len() as int) =~= s0);
            lemma_sessions_where(s0, keep);
        }
        let ghost a0 = self@;
        self.sessions = kept;
        assert(self@.users == a0.users);
    }

    /// Removes the sessions that have expired at `now`.
    pub fn invalidate_dangling_sessions(&mut self, now: i64)
        requires
            old(self).wf(),
        ensures
            final(self).wf(),
            final(self)@.users == old(self)@.users,
            final(self)@.sessions == sessions_where(old(self)@.sessions, not_expired(now)),
    {
        self.keep_sessions(Some(now), 0);
    }

    /// Ends session `session_id`.
    pub fn invalidate_session(&mut self, session_id: u128)
        requires
            old(self).wf(),
        ensures
            final(self).wf(),
            final(self)@.users == old(self)@.users,
            final(self)@.sessions == sessions_where(old(self)@.sessions, not_session(session_id)),
            !session_taken(final(self)@.sessions, session_id),
    {
        let ghost s0 = self@.sessions;
        self.keep_sessions(None, session_id);
        proof {
            lemma_sessions_where(s0, not_session(session_id));
            let s = self@.sessions;
            if session_taken(s, session_id) {
                let k = choose|k: int| 0 <= k < s.len() && (#[trigger] s[k]).session_id == session_id;
                assert(not_session(session_id)(s[k]));
            }
        }
    }

    /// Opens session `session_id` of `user_id` at `now`, lasting a day;
    /// nothing where the id is taken.
    fn create_session(&mut self, user_id: u128, session_id: u128, now: i64) -> (r: Option<Session>)
        requires
            old(self).wf(),
        ensures
            final(self).wf(),
            final(self)@.users == old(self)@.users,
            session_taken(old(self)@.sessions, session_id) ==> r is None && final(self)@ == old(self)@,
            !session_taken(old(self)@.sessions, session_id) ==> r == Some(Session { session_id })
                && final(self)@.sessions == old(self)@.sessions.push(
                SessionRecord { session_id, user_id, expiry: expiry_after(now) },
            ),
    {
        if self.find_session(session_id).is_some() {
            return None;
        }
        let expiry: i64 = if now <= i64::MAX - SESSION_SECONDS { now + SESSION_SECONDS } else { i64::MAX };
        let ghost s0 = self@.sessions;
        let ghost a0 = self@;
        self.sessions.push(SessionRecord { session_id, user_id, expiry });
        proof {
            assert(self@.users == a0.users);
            let s1 = self@.sessions;
            let n = s0.len() as int;
            assert forall|i: int, j: int| 0 <= i < s1.len() && 0 <= j < s1.len() && i != j implies
                (#[trigger] s1[i]).session_id != (#[trigger] s1[j]).session_id by {
                if i < n && j < n {
                    assert(s0[i].session_id != s0[j].session_id);
                } else if i < n {
                    assert(s1[i] == s0[i]);
                } else if j < n {
                    assert(s1[j] == s0[j]);
                }
            }
        }
        Some(Session { session_id })
    }

    /// Whether some user has the name `name` or the e-mail address `email`.
    fn taken(&self, name: &str, email: &str) -> (r: bool)
        ensures
            r == name_or_email_taken(self@.users, name@, email@),
    {
        let mut i: usize = 0;
        while i < self.users.len()
            invariant
                i <= self.users.len(),
                forall|k: int| 0 <= k < i ==> !((#[trigger] self@.users[k]).username == name@ || self@.users[k].email_id == email@),
            decreases self.users.len() - i,
        {
            let u = &self.users[i];
            if same_text(u.username.as_str(), name) || same_text(u.email_id.as_str(), email) {
                assert(self@.users[i as int] == u@);
                return true;
            }
            i = i + 1;
        }
        false
    }

    fn id_taken(&self, id: u128) -> (r: bool)
        ensures
            r == user_id_taken(self@.users, id),
    {
        let mut i: usize = 0;
        while i < self.users.len()
            invariant
                i <= self.users.len(),
                forall|k: int| 0 <= k < i ==> (#[trigger] self@.users[k]).user_id != id,
            decreases self.users.len() - i,
        {
            if self.users[i].user_id == id {
                assert(self@.users[i as int].user_id == id);
                return true;
            }
            i = i + 1;
        }
        false
    }

    fn find_user(&self, name: &str) -> (r: Option<usize>)
        requires
            self.wf(),
        ensures
            match r {
                Some(k) => k < self@.users.len() && user_named(self@.users, name@)
                    && named_user(self@.users, name@) == self@.users[k as int],
                None => !user_named(self@.users, name@),
            },
    {
        let mut i: usize = 0;
        while i < self.users.len()
            invariant
                self.wf(),
                i <= self.users.len(),
                forall|k: int| 0 <= k < i ==> (#[trigger] self@.users[k]).username != name@,
            decreases self.users.len() - i,
        {
            if same_text(self.users[i].username.as_str(), name) {
                proof {
                    let us = self@.users;
                    assert(us[i as int].username == name@);
                    let c = choose|c: int| 0 <= c < us.len() && (#[trigger] us[c]).username == name@;
                    if c != i as int {
                        assert(us[c].username != us[i as int].username);
                    }
                }
                return Some(i);
            }
            i = i + 1;
        }
        None
    }

    /// Registers the user of `form`, whose password hashes to `hashed_pass`,
    /// under the id `user_id`, and opens session `session_id` at `now`.
    /// An unprocessable form is refused with 422, a taken name or e-mail
    /// address with 409, and a taken id as an internal error.
    pub fn signup(
        &mut self,
        form: CreateUserForm,
        hashed_pass: String,
        user_id: u128,
        session_id: u128,
        now: i64,
    ) -> (r: Result<Session, MyError>)
        requires
            old(self).wf(),
        ensures
            final(self).wf(),
            signup_refusal(encode_utf8(form.password@).len(), email_ok(form.email_id@)) matches Some(msg) ==> {
                &&& r matches Err(MyError::CustomError((code, detail))) && code == 422 && detail@ == msg
                &&& final(self)@ == old(self)@
            },
            signup_refusal(encode_utf8(form.password@).len(), email_ok(form.email_id@)) is None
                && name_or_email_taken(old(self)@.users, form.username@, form.email_id@) ==> {
                &&& r matches Err(MyError::CustomError((code, detail))) && code == 409
                    && detail@ == "user or email_id exists"@
                &&& final(self)@ == old(self)@
            },
            signup_refusal(encode_utf8(form.password@).len(), email_ok(form.email_id@)) is None
                && !name_or_email_taken(old(self)@.users, form.username@, form.email_id@)
                && (user_id_taken(old(self)@.users, user_id) || session_taken(old(self)@.sessions, session_id)) ==> {
                &&& r == Err::<Session, MyError>(MyError::InternalServerError)
                &&& final(self)@ == old(self)@
            },
            signup_refusal(encode_utf8(form.password@).len(), email_ok(form.email_id@)) is None
                && !name_or_email_taken(old(self)@.users, form.username@, form.email_id@)
                && !user_id_taken(old(self)@.users, user_id) && !session_taken(old(self)@.sessions, session_id) ==> {
                &&& r == Ok::<Session, MyError>(Session { session_id })
                &&& final(self)@.users == old(self)@.users.push(UserView {
                    user_id,
                    username: form.username@,
                    email_id: form.email_id@,
                    hashed_pass: hashed_pass@,
                })
                &&& final(self)@.sessions == old(self)@.sessions.push(
                    SessionRecord { session_id, user_id, expiry: expiry_after(now) },
                )
            },
    {
        match validate_signup(&form) {
            Err(g) => { return Err(MyError::CustomError((422, g.detail))); },
            Ok(()) => {},
        }
        if self.taken(form.username.as_str(), form.email_id.as_str()) {
            return Err(MyError::CustomError((409, String::from_str("user or email_id exists"))));
        }
        if self.id_taken(user_id) || self.find_session(session_id).is_some() {
            return Err(MyError::InternalServerError);
        }
        let ghost a0 = self@;
        let record = UserRecord {
            user_id,
            username: form.username,
            email_id: form.email_id,
            hashed_pass,
        };
        self.users.push(record);
        proof {
            let u1 = self@.users;
            let u0 = a0.users;
            let n = u0.len() as int;
            assert(u1 =~= u0.push(record@));
            assert forall|i: int, j: int| 0 <= i < u1.len() && 0 <= j < u1.len() && i != j implies {
                &&& (#[trigger] u1[i]).user_id != (#[trigger] u1[j]).user_id
                &&& u1[i].username != u1[j].username
                &&& u1[i].email_id != u1[j].email_id
            } by {
                if i < n && j < n {
                    assert(u1[i] == u0[i] && u1[j] == u0[j]);
                } else if i < n {
                    assert(u1[i] == u0[i]);
                } else if j < n {
                    assert(u1[j] == u0[j]);
                }
            }
        }
        let opened = self.create_session(user_id, session_id, now);
        match opened {
            Some(s) => Ok(s),
            None => Err(MyError::InternalServerError),
        }
    }

    /// Logs in with `login` at `now`, opening session `session_id`. Expired
    /// sessions are swept first. An unknown name and a wrong password are
    /// refused with 401; a taken session id with 500.
    pub fn user_login(&mut self, login: &UserLogin, session_id: u128, now: i64) -> (r: Result<Session, MyError>)
        requires
            old(self).wf(),
        ensures
            final(self).wf(),
            !user_named(old(self)@.users, login.username@) ==> {
                &&& r matches Err(MyError::CustomError((code, detail))) && code == 401
                    && detail@ == "Invalid Username or password"@
                &&& final(self)@ == swept(old(self)@, now)
            },
            user_named(old(self)@.users, login.username@) && !argon2_accepts(
                login.password@,
                named_user(old(self)@.users, login.username@).hashed_pass,
            ) ==> {
                &&& r matches Err(MyError::CustomError((code, detail))) && code == 401
                    && detail@ == "Wrong username or password"@
                &&& final(self)@ == swept(old(self)@, now)
            },
            user_named(old(self)@.users, login.username@) && argon2_accepts(
                login.password@,
                named_user(old(self)@.users, login.username@).hashed_pass,
            ) && session_taken(swept(old(self)@, now).sessions, session_id) ==> {
                &&& r matches Err(MyError::CustomError((code, detail))) && code == 500
                    && detail@ == "Error Creating Session"@
                &&& final(self)@ == swept(old(self)@, now)
            },
            user_named(old(self)@.users, login.username@) && argon2_accepts(
                login.password@,
                named_user(old(self)@.users, login.username@).hashed_pass,
            ) && !session_taken(swept(old(self)@, now).sessions, session_id) ==> {
                &&& r == Ok::<Session, MyError>(Session { session_id })
                &&& final(self)@.users == old(self)@.users
                &&& final(self)@.sessions == swept(old(self)@, now).sessions.push(
                    SessionRecord {
                        session_id,
                        user_id: named_user(old(self)@.users, login.username@).user_id,
                        expiry: expiry_after(now),
                    },
                )
            },
    {
        self.invalidate_dangling_sessions(now);
        let k = match self.find_user(login.username.as_str()) {
            Some(k) => k,
            None => {
                return Err(MyError::CustomError((401, String::from_str("Invalid Username or password"))));
            },
        };
        let user_id = self.users[k].user_id;
        let hash = self.users[k].hashed_pass.clone();
        proof { assert(self@.users[k as int].hashed_pass == hash@); }
        if validate_password(&login.password, hash).is_err() {
            return Err(MyError::CustomError((401, String::from_str("Wrong username or password"))));
        }
        match self.create_session(user_id, session_id, now) {
            Some(s) => Ok(s),
            None => Err(MyError::CustomError((500, String::from_str("Error Creating Session")))),
        }
    }
}

} // verus!
