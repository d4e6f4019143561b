//! Users: registration, sign-in with an argon2-hashed password, profile
//! changes, and the checks on the registration and sign-in forms.
//!
//! Emails are unique. Signing in with an unknown email and with a wrong
//! password give the same answer, so neither leaks which one it was.

use vstd::prelude::*;
use validator::ValidateEmail;
use crate::errors::{AppError, ErrorKind};
use crate::models::{full_name_spec, NewUser, Role, User};
use crate::otp::{argon2_check, argon2_hash, argon2_verifies};
use crate::text::{int_text, i64_text, same_text, trim, trimmed};

verus! {

// ── Form checks ─────────────────────────────────────────────────────

/// What `validator`'s email check answers for `s`.
pub uninterp spec fn email_accepted(s: Seq<char>) -> bool;

/// Checks an email address with `<&str as ValidateEmail>::validate_email`
/// (the HTML5 e-mail grammar, with length limits and international
/// domains). The contract names the answer and states the one fact its
/// first lines make plain: an empty address, or one without `@`, is
/// refused.
#[verifier::external_body]
fn validate_email(s: &str) -> (b: bool)
    ensures
        b == email_accepted(s@),
        b ==> s@.len() > 0 && s@.contains('@'),
{
    s.validate_email()
}

/// Whether `s` has between `min` and `max` characters.
pub open spec fn length_within(s: Seq<char>, min: int, max: int) -> bool {
    min <= s.len() <= max
}

/// The registration form's fields that fail their checks, in form order:
/// a valid email; a first and last name of 1 to 40 characters; a middle
/// name of at most 40; an identity number of 5 to 20; a password of 8 to
/// 128.
pub open spec fn registration_problems_spec(
    email: Seq<char>,
    first_name: Seq<char>,
    middle_name: Option<Seq<char>>,
    last_name: Seq<char>,
    nric: Seq<char>,
    password: Seq<char>,
) -> Seq<Seq<char>> {
    (if email_accepted(email) {
        Seq::empty()
    } else {
        seq!["email"@]
    }) + (if length_within(first_name, 1, 40) {
        Seq::empty()
    } else {
        seq!["first_name"@]
    }) + (if (match middle_name {
        Some(m) => length_within(m, 0, 40),
        None => true,
    }) {
        Seq::empty()
    } else {
        seq!["middle_name"@]
    }) + (if length_within(last_name, 1, 40) {
        Seq::empty()
    } else {
        seq!["last_name"@]
    }) + (if length_within(nric, 5, 20) {
        Seq::empty()
    } else {
        seq!["nric"@]
    }) + (if length_within(password, 8, 128) {
        Seq::empty()
    } else {
        seq!["password"@]
    })
}

/// Appends `name` to `out` when `ok` fails.
fn note_problem(out: &mut Vec<&'static str>, ok: bool, name: &'static str)
    ensures
        final(out)@.map_values(|s: &'static str| s@) == old(out)@.map_values(|s: &'static str| s@) + if ok {
            Seq::<Seq<char>>::empty()
        } else {
            seq![name@]
        },
{
    let ghost before = out@;
    if !ok {
        out.push(name);
        proof {
            assert(out@.map_values(|s: &'static str| s@) =~= before.map_values(|s: &'static str| s@) + seq![name@]);
        }
    } else {
        proof {
            assert(out@.map_values(|s: &'static str| s@) =~= before.map_values(|s: &'static str| s@) + Seq::<Seq<char>>::empty());
        }
    }
}

/// The registration form's failing fields, in form order; empty when the
/// form is valid.
pub fn registration_problems(
    email: &str,
    first_name: &str,
    middle_name: Option<&str>,
    last_name: &str,
    nric: &str,
    password: &str,
) -> (r: Vec<&'static str>)
    ensures
        r@.map_values(|s: &'static str| s@) == registration_problems_spec(
            email@,
            first_name@,
            match middle_name {
                Some(m) => Some(m@),
                None => None,
            },
            last_name@,
            nric@,
            password@,
        ),
{
    proof {
        reveal_strlit("email");
        reveal_strlit("first_name");
        reveal_strlit("middle_name");
        reveal_strlit("last_name");
        reveal_strlit("nric");
        reveal_strlit("password");
    }
    let mut out: Vec<&'static str> = Vec::new();
    proof {
        assert(out@.map_values(|s: &'static str| s@) =~= Seq::<Seq<char>>::empty());
    }
    note_problem(&mut out, validate_email(email), "email");
    let f = first_name.unicode_len();
    note_problem(&mut out, 1 <= f && f <= 40, "first_name");
    let m_ok = match middle_name {
        Some(m) => m.unicode_len() <= 40,
        None => true,
    };
    note_problem(&mut out, m_ok, "middle_name");
    let l = last_name.unicode_len();
    note_problem(&mut out, 1 <= l && l <= 40, "last_name");
    let n = nric.unicode_len();
    note_problem(&mut out, 5 <= n && n <= 20, "nric");
    let p = password.unicode_len();
    note_problem(&mut out, 8 <= p && p <= 128, "password");
    proof {
        let ghost mv = match middle_name {
            Some(m) => Some(m@),
            None => None,
        };
        assert(out@.map_values(|s: &'static str| s@) =~= registration_problems_spec(email@, first_name@, mv, last_name@, nric@, password@));
    }
    out
}

/// Whether the sign-in form passes its checks: a valid email and a
/// password of 1 to 128 characters.
pub fn login_form_ok(email: &str, password: &str) -> (b: bool)
    ensures
        b == (email_accepted(email@) && length_within(password@, 1, 128)),
{
    let p = password.unicode_len();
    validate_email(email) && 1 <= p && p <= 128
}

// ── The users table ─────────────────────────────────────────────────

/// A user row.
pub struct UserRec {
    pub id: i64,
    pub email: String,
    pub password_hash: String,
    pub full_name: String,
    pub first_name: Option<String>,
    pub middle_name: Option<String>,
    pub last_name: String,
    pub nric: Option<String>,
    pub role: Role,
    /// The last request, in microseconds (for the inactivity limit).
    pub last_activity: Option<i64>,
}

/// The view of a [`UserRec`].
pub struct UserView {
    pub id: i64,
    pub email: Seq<char>,
    pub password_hash: Seq<char>,
    pub full_name: Seq<char>,
    pub first_name: Option<Seq<char>>,
    pub middle_name: Option<Seq<char>>,
    pub last_name: Seq<char>,
    pub nric: Option<Seq<char>>,
    pub role: Role,
    pub last_activity: Option<i64>,
}

/// The view of an optional string.
pub open spec fn opt_seq(o: Option<String>) -> Option<Seq<char>> {
    match o {
        Some(s) => Some(s@),
        None => None,
    }
}

impl View for UserRec {
    type V = UserView;

    open spec fn view(&self) -> UserView {
        UserView {
            id: self.id,
            email: self.email@,
            password_hash: self.password_hash@,
            full_name: self.full_name@,
            first_name: opt_seq(self.first_name),
            middle_name: opt_seq(self.middle_name),
            last_name: self.last_name@,
            nric: opt_seq(self.nric),
            role: self.role,
            last_activity: self.last_activity,
        }
    }
}

/// The users.
pub struct Users {
    rows: Vec<UserRec>,
}

impl View for Users {
    type V = Seq<UserView>;

    closed spec fn view(&self) -> Seq<UserView> {
        Seq::new(self.rows@.len(), |i: int| self.rows@[i]@)
    }
}

/// Sound rows: ids follow the row order and no two users share an email.
pub open spec fn users_ok(rows: Seq<UserView>) -> bool {
    &&& rows.len() < i64::MAX
    &&& forall|i: int| 0 <= i < rows.len() ==> (#[trigger] rows[i]).id == i + 1
    &&& forall|i: int, j: int|
        0 <= i < j < rows.len() ==> (#[trigger] rows[i]).email != (#[trigger] rows[j]).email
}

/// The row of the user with `email`.
pub open spec fn row_of_email(rows: Seq<UserView>, email: Seq<char>) -> Option<int> {
    if exists|i: int| 0 <= i < rows.len() && (#[trigger] rows[i]).email == email {
        Some(choose|i: int| 0 <= i < rows.len() && (#[trigger] rows[i]).email == email)
    } else {
        None
    }
}

/// A blank-trimmed optional text: `None` when absent or blank.
pub open spec fn non_blank(o: Option<Seq<char>>) -> Option<Seq<char>> {
    match o {
        Some(s) => if trimmed(s).len() == 0 {
            None
        } else {
            Some(trimmed(s))
        },
        None => None,
    }
}

/// The row a registration adds, with the hash `hash` of its password.
pub open spec fn registered_row(id: nat, u: NewUser, hash: Seq<char>) -> UserView {
    UserView {
        id: id as i64,
        email: u.email@,
        password_hash: hash,
        full_name: full_name_spec(u.first_name@, opt_seq(u.middle_name), u.last_name@),
        first_name: Some(trimmed(u.first_name@)),
        middle_name: non_blank(opt_seq(u.middle_name)),
        last_name: trimmed(u.last_name@),
        nric: non_blank(opt_seq(u.nric)),
        role: u.role,
        last_activity: None,
    }
}

/// The user a row describes.
pub open spec fn user_of(r: UserView) -> (i64, Seq<char>, Seq<char>, Option<Seq<char>>, Role) {
    (r.id, r.email, r.full_name, r.first_name, r.role)
}

/// The view of a [`User`].
pub open spec fn user_view(u: User) -> (i64, Seq<char>, Seq<char>, Option<Seq<char>>, Role) {
    (u.id, u.email@, u.full_name@, opt_seq(u.first_name), u.role)
}

/// How signing in with `email` and `password` ends: the user's row, or
/// `Unauthorized` for an unknown email and a wrong password alike, or an
/// internal error for a stored hash argon2 cannot read.
pub open spec fn login_spec(rows: Seq<UserView>, email: Seq<char>, password: Seq<char>) -> Result<int, (ErrorKind, Seq<char>)> {
    match row_of_email(rows, email) {
        None => Err((ErrorKind::Unauthorized, Seq::empty())),
        Some(k) => match argon2_verifies(password, rows[k].password_hash) {
            None => Err((ErrorKind::Internal, "password processing failed"@)),
            Some(false) => Err((ErrorKind::Unauthorized, Seq::empty())),
            Some(true) => Ok(k),
        },
    }
}

/// Trimmed, or `None` when blank.
fn non_blank_text(o: &Option<String>) -> (r: Option<String>)
    ensures
        opt_seq(r) == non_blank(opt_seq(*o)),
{
    match o {
        Some(s) => {
            let t = trim(s.as_str());
            if t.unicode_len() == 0 {
                None
            } else {
                Some(t.to_owned())
            }
        },
        None => None,
    }
}

/// A copy of an optional string.
fn copy_opt(o: &Option<String>) -> (r: Option<String>)
    ensures
        opt_seq(r) == opt_seq(*o),
{
    match o {
        Some(s) => Some(s.clone()),
        None => None,
    }
}

impl Users {
    /// No users.
    pub fn new() -> (u: Users)
        ensures
            u@.len() == 0,
            users_ok(u@),
    {
        Users { rows: Vec::new() }
    }

    /// The row holding `email`, if any.
    fn find_email(&self, email: &str) -> (r: Option<usize>)
        requires
            users_ok(self@),
        ensures
            match r {
                Some(k) => row_of_email(self@, email@) == Some(k as int),
                None => row_of_email(self@, email@) is None,
            },
    {
        let n = self.rows.len();
        let mut i: usize = 0;
        while i < n
            invariant
                users_ok(self@),
                n == self@.len(),
                i <= n,
                forall|k: int| 0 <= k < i ==> (#[trigger] self@[k]).email != email@,
            decreases n - i,
        {
            assert(self@[i as int] == self.rows@[i as int]@);
            if same_text(self.rows[i].email.as_str(), email) {
                proof {
                    let rows = self@;
                    assert(rows[i as int].email == email@);
                    let c = choose|k: int| 0 <= k < rows.len() && (#[trigger] rows[k]).email == email@;
                    if c != i {
                        if c < i {
                            assert(rows[c].email != rows[i as int].email);
                        } else {
                            assert(rows[i as int].email != rows[c].email);
                        }
                    }
                }
                return Some(i);
            }
            i = i + 1;
        }
        None
    }

    /// The user of row `k`.
    fn user_at(&self, k: usize) -> (u: User)
        requires
            k < self@.len(),
        ensures
            user_view(u) == user_of(self@[k as int]),
    {
        assert(self@[k as int] == self.rows@[k as int]@);
        let r = &self.rows[k];
        User {
            id: r.id,
            email: r.email.clone(),
            full_name: r.full_name.clone(),
            first_name: copy_opt(&r.first_name),
            role: r.role,
        }
    }

    /// Registers a new user; `Conflict` when the email is taken.
    pub fn register(&mut self, new_user: NewUser) -> (r: Result<User, AppError>)
        requires
            users_ok(old(self)@),
            old(self)@.len() + 1 < i64::MAX,
        ensures
            users_ok(final(self)@),
            r matches Ok(u) ==> {
                &&& row_of_email(old(self)@, new_user.email@) is None
                &&& final(self)@ == old(self)@.push(
                    registered_row(old(self)@.len() + 1, new_user, final(self)@.last().password_hash),
                )
                &&& argon2_verifies(new_user.password@, final(self)@.last().password_hash) == Some(true)
                &&& user_view(u) == user_of(final(self)@.last())
            },
            r matches Err(e) ==> final(self)@ == old(self)@ && ((e@ == (ErrorKind::Internal, "password processing failed"@)
                && new_user.password@.len() >= 1_000_000_000) || (e@ == (ErrorKind::Conflict, "email already registered"@)
                && row_of_email(old(self)@, new_user.email@) is Some)),
            row_of_email(old(self)@, new_user.email@) is Some ==> r is Err,
            row_of_email(old(self)@, new_user.email@) is None && new_user.password@.len() < 1_000_000_000 ==> r is Ok,
    {
        let hash = match argon2_hash(new_user.password.as_str()) {
            Some(h) => h,
            None => return Err(AppError::Internal("password processing failed".to_owned())),
        };
        if self.find_email(new_user.email.as_str()).is_some() {
            return Err(AppError::Conflict("email already registered".to_owned()));
        }
        let full_name = new_user.full_name();
        let id = self.rows.len() as i64 + 1;
        let ghost before = self@;
        let ghost h = hash@;
        let row = UserRec {
            id,
            email: new_user.email,
            password_hash: hash,
            full_name,
            first_name: Some(trim(new_user.first_name.as_str()).to_owned()),
            middle_name: non_blank_text(&new_user.middle_name),
            last_name: trim(new_user.last_name.as_str()).to_owned(),
            nric: non_blank_text(&new_user.nric),
            role: new_user.role,
            last_activity: None,
        };
        self.rows.push(row);
        proof {
            assert(self@ =~= before.push(registered_row(before.len() + 1, new_user, h)));
            let rows = self@;
            assert forall|i: int, j: int| 0 <= i < j < rows.len() implies (#[trigger] rows[i]).email != (#[trigger] rows[j]).email by {
                assert(rows[i] == before[i] || i == before.len());
                if j == before.len() {
                    assert(rows[i] == before[i]);
                    if rows[i].email == new_user.email@ {
                        assert(exists|k: int| 0 <= k < before.len() && (#[trigger] before[k]).email == new_user.email@);
                    }
                } else {
                    assert(rows[i] == before[i]);
                    assert(rows[j] == before[j]);
                }
            }
            assert forall|i: int| 0 <= i < rows.len() implies (#[trigger] rows[i]).id == i + 1 by {
                if i < before.len() {
                    assert(rows[i] == before[i]);
                }
            }
        }
        let last = self.rows.len() - 1;
        assert(self@[last as int] == self@.last());
        let u = self.user_at(last);
        Ok(u)
    }

    /// Signs in with `email` and `password` at `now`; the user's activity
    /// clock restarts.
    pub fn login(&mut self, email: &str, password: &str, now: i64) -> (r: Result<User, AppError>)
        requires
            users_ok(old(self)@),
        ensures
            users_ok(final(self)@),
            match login_spec(old(self)@, email@, password@) {
                Ok(k) => r matches Ok(u) && user_view(u) == user_of(old(self)@[k])
                    && final(self)@ == old(self)@.update(k, UserView { last_activity: Some(now), ..old(self)@[k] }),
                Err(e) => r matches Err(x) && x@ == e && final(self)@ == old(self)@,
            },
    {
        let k = match self.find_email(email) {
            None => return Err(AppError::Unauthorized),
            Some(k) => k,
        };
        assert(self@[k as int] == self.rows@[k as int]@);
        match argon2_check(password, self.rows[k].password_hash.as_str()) {
            None => return Err(AppError::Internal("password processing failed".to_owned())),
            Some(false) => return Err(AppError::Unauthorized),
            Some(true) => {},
        }
        let u = self.user_at(k);
        self.touch_row(k, now);
        Ok(u)
    }

    /// Restarts user `id`'s activity clock; an unknown id changes nothing.
    pub fn touch(&mut self, id: i64, now: i64)
        requires
            users_ok(old(self)@),
        ensures
            users_ok(final(self)@),
            1 <= id <= old(self)@.len() ==> final(self)@ == old(self)@.update(id - 1, UserView { last_activity: Some(now), ..old(self)@[id - 1] }),
            !(1 <= id <= old(self)@.len()) ==> final(self)@ == old(self)@,
    {
        if 1 <= id && (id as u64) <= (self.rows.len() as u64) {
            self.touch_row((id - 1) as usize, now);
        }
    }

    /// The number of users.
    pub fn len(&self) -> (n: usize)
        ensures
            n == self@.len(),
    {
        self.rows.len()
    }

    /// The role of user `id`, if any.
    pub fn role_of(&self, id: i64) -> (r: Option<Role>)
        ensures
            1 <= id <= self@.len() ==> r == Some(self@[id - 1].role),
            !(1 <= id <= self@.len()) ==> r is None,
    {
        if 1 <= id && (id as u64) <= (self.rows.len() as u64) {
            assert(self@[id - 1] == self.rows@[id - 1]@);
            Some(self.rows[(id - 1) as usize].role)
        } else {
            None
        }
    }

    /// Restarts row `k`'s activity clock.
    fn touch_row(&mut self, k: usize, now: i64)
        requires
            users_ok(old(self)@),
            k < old(self)@.len(),
        ensures
            users_ok(final(self)@),
            final(self)@ == old(self)@.update(k as int, UserView { last_activity: Some(now), ..old(self)@[k as int] }),
    {
        let ghost before = self@;
        let r = &self.rows[k];
        let row = UserRec {
            id: r.id,
            email: r.email.clone(),
            password_hash: r.password_hash.clone(),
            full_name: r.full_name.clone(),
            first_name: copy_opt(&r.first_name),
            middle_name: copy_opt(&r.middle_name),
            last_name: r.last_name.clone(),
            nric: copy_opt(&r.nric),
            role: r.role,
            last_activity: Some(now),
        };
        self.rows.set(k, row);
        proof {
            assert(self@ =~= before.update(k as int, UserView { last_activity: Some(now), ..before[k as int] }));
            let rows = self@;
            assert forall|i: int, j: int| 0 <= i < j < rows.len() implies (#[trigger] rows[i]).email != (#[trigger] rows[j]).email by {
                assert(rows[i].email == before[i].email);
                assert(rows[j].email == before[j].email);
            }
        }
    }

    /// The user with id `id`.
    pub fn find_by_id(&self, id: i64) -> (r: Result<User, AppError>)
        requires
            users_ok(self@),
        ensures
            1 <= id <= self@.len() ==> (r matches Ok(u) && user_view(u) == user_of(self@[id - 1])),
            !(1 <= id <= self@.len()) ==> (r matches Err(e) && e@ == (ErrorKind::NotFound, "user "@ + int_text(id as int) + " not found"@)),
    {
        if 1 <= id && (id as u64) <= (self.rows.len() as u64) {
            Ok(self.user_at((id - 1) as usize))
        } else {
            let mut m = "user ".to_owned();
            m.append(i64_text(id).as_str());
            m.append(" not found");
            Err(AppError::NotFound(m))
        }
    }

    /// The last activity of user `id`, if recorded.
    pub fn last_activity(&self, id: i64) -> (r: Option<i64>)
        ensures
            1 <= id <= self@.len() ==> r == self@[id - 1].last_activity,
            !(1 <= id <= self@.len()) ==> r is None,
    {
        if 1 <= id && (id as u64) <= (self.rows.len() as u64) {
            assert(self@[id - 1] == self.rows@[id - 1]@);
            self.rows[(id - 1) as usize].last_activity
        } else {
            None
        }
    }

    /// Changes user `id`'s email to `new_email`, trimmed; `Conflict` when
    /// another user has it. An unknown id changes nothing.
    pub fn change_email(&mut self, id: i64, new_email: &str) -> (r: Result<(), AppError>)
        requires
            users_ok(old(self)@),
        ensures
            users_ok(final(self)@),
            ({
                let e = trimmed(new_email@);
                let rows = old(self)@;
                if !(1 <= id <= rows.len()) {
                    r is Ok && final(self)@ == rows
                } else if (match row_of_email(rows, e) {
                    Some(k) => k != id - 1,
                    None => false,
                }) {
                    (r matches Err(x) && x@ == (ErrorKind::Conflict, "that email is already registered"@)) && final(self)@ == rows
                } else {
                    r is Ok && final(self)@ == rows.update(id - 1, UserView { email: e, ..rows[id - 1] })
                }
            }),
    {
        let e = trim(new_email);
        if !(1 <= id && (id as u64) <= (self.rows.len() as u64)) {
            return Ok(());
        }
        let k = (id - 1) as usize;
        match self.find_email(e) {
            Some(j) => if j != k {
                return Err(AppError::Conflict("that email is already registered".to_owned()));
            },
            None => {},
        }
        let ghost before = self@;
        assert(before[k as int] == self.rows@[k as int]@);
        let r = &self.rows[k];
        let row = UserRec {
            id: r.id,
            email: e.to_owned(),
            password_hash: r.password_hash.clone(),
            full_name: r.full_name.clone(),
            first_name: copy_opt(&r.first_name),
            middle_name: copy_opt(&r.middle_name),
            last_name: r.last_name.clone(),
            nric: copy_opt(&r.nric),
            role: r.role,
            last_activity: r.last_activity,
        };
        self.rows.set(k, row);
        proof {
            assert(self@ =~= before.update(k as int, UserView { email: e@, ..before[k as int] }));
            let rows = self@;
            assert forall|i: int, j: int| 0 <= i < j < rows.len() implies (#[trigger] rows[i]).email != (#[trigger] rows[j]).email by {
                if i == k {
                    assert(rows[j] == before[j]);
                    if rows[j].email == e@ {
                        assert(exists|x: int| 0 <= x < before.len() && (#[trigger] before[x]).email == e@);
                    }
                } else if j == k {
                    assert(rows[i] == before[i]);
                    if rows[i].email == e@ {
                        assert(exists|x: int| 0 <= x < before.len() && (#[trigger] before[x]).email == e@);
                    }
                } else {
                    assert(rows[i] == before[i]);
                    assert(rows[j] == before[j]);
                }
            }
        }
        Ok(())
    }

    /// Sets user `id`'s password. An unknown id changes nothing.
    pub fn change_password(&mut self, id: i64, new_password: &str) -> (r: Result<(), AppError>)
        requires
            users_ok(old(self)@),
        ensures
            users_ok(final(self)@),
            r matches Err(e) ==> e@ == (ErrorKind::Internal, "password processing failed"@) && final(self)@ == old(self)@
                && new_password@.len() >= 1_000_000_000,
            new_password@.len() < 1_000_000_000 ==> r is Ok,
            r is Ok && 1 <= id <= old(self)@.len() ==> {
                let h = final(self)@[id - 1].password_hash;
                &&& final(self)@ == old(self)@.update(id - 1, UserView { password_hash: h, ..old(self)@[id - 1] })
                &&& argon2_verifies(new_password@, h) == Some(true)
            },
            r is Ok && !(1 <= id <= old(self)@.len()) ==> final(self)@ == old(self)@,
    {
        let hash = match argon2_hash(new_password) {
            Some(h) => h,
            None => return Err(AppError::Internal("password processing failed".to_owned())),
        };
        if !(1 <= id && (id as u64) <= (self.rows.len() as u64)) {
            return Ok(());
        }
        let k = (id - 1) as usize;
        let ghost before = self@;
        let ghost h = hash@;
        assert(before[k as int] == self.rows@[k as int]@);
        let r = &self.rows[k];
        let row = UserRec {
            id: r.id,
            email: r.email.clone(),
            password_hash: hash,
            full_name: r.full_name.clone(),
            first_name: copy_opt(&r.first_name),
            middle_name: copy_opt(&r.middle_name),
            last_name: r.last_name.clone(),
            nric: copy_opt(&r.nric),
            role: r.role,
            last_activity: r.last_activity,
        };
        self.rows.set(k, row);
        proof {
            assert(self@ =~= before.update(k as int, UserView { password_hash: h, ..before[k as int] }));
            let rows = self@;
            assert forall|i: int, j: int| 0 <= i < j < rows.len() implies (#[trigger] rows[i]).email != (#[trigger] rows[j]).email by {
                assert(rows[i].email == before[i].email);
                assert(rows[j].email == before[j].email);
            }
        }
        Ok(())
    }
}

/// A user who registered signs in with the email and password they
/// registered with.
pub proof fn law_registered_password_signs_in(rows: Seq<UserView>, u: NewUser, hash: Seq<char>)
    requires
        users_ok(rows.push(registered_row(rows.len() + 1, u, hash))),
        argon2_verifies(u.password@, hash) == Some(true),
    ensures
        login_spec(rows.push(registered_row(rows.len() + 1, u, hash)), u.email@, u.password@) == Ok::<int, (ErrorKind, Seq<char>)>(rows.len() as int),
{
    let rs = rows.push(registered_row(rows.len() + 1, u, hash));
    let k = rows.len() as int;
    assert(rs[k].email == u.email@);
    let c = choose|i: int| 0 <= i < rs.len() && (#[trigger] rs[i]).email == u.email@;
    if c != k {
        assert(rs[c].email != rs[k].email);
    }
}

/// An unknown email and a wrong password answer alike.
pub proof fn law_sign_in_failure_does_not_say_why(rows: Seq<UserView>, email: Seq<char>, password: Seq<char>)
    requires
        row_of_email(rows, email) is None || (row_of_email(rows, email) matches Some(k) && argon2_verifies(password, rows[k].password_hash) == Some(false)),
    ensures
        login_spec(rows, email, password) == Err::<int, (ErrorKind, Seq<char>)>((ErrorKind::Unauthorized, Seq::empty())),
{
}

} // verus!
