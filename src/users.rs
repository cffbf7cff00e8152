//! Registration, login and profile updates, over bcrypt-hashed passwords.

use vstd::prelude::*;

use crate::error::CrudError;
use crate::jwt::{clamp_i64, Jwt, ISSUER, TOKEN_LIFETIME};
use crate::outside::{bcrypt_hash, bcrypt_verify, verify_of};

verus! {

/// A registered user. `password` holds the bcrypt hash, never the password.
#[derive(Clone, Debug, PartialEq, Eq)]
pub struct User {
    pub id: u128,
    pub username: String,
    pub password: String,
}

#[derive(Clone, Debug, PartialEq, Eq)]
pub struct NewUser {
    pub username: String,
    pub password: String,
}

#[derive(Clone, Debug, PartialEq, Eq)]
pub struct LoginUser {
    pub username: String,
    pub password: String,
}

/// A partial update of a user: absent fields are kept.
#[derive(Clone, Debug, PartialEq, Eq)]
pub struct UpdateUser {
    pub username: Option<String>,
    pub password: Option<String>,
}

/// No two users share an id or a username.
pub open spec fn users_unique(users: Seq<User>) -> bool {
    forall|i: int, j: int|
        0 <= i < users.len() && 0 <= j < users.len() && i != j ==> (#[trigger] users[i]).id != (
        #[trigger] users[j]).id && users[i].username@ != users[j].username@
}

pub open spec fn name_taken(users: Seq<User>, name: Seq<char>) -> bool {
    exists|i: int| 0 <= i < users.len() && #[trigger] users[i].username@ == name
}

/// A registration under `name` and `id` collides with a stored user.
pub open spec fn registration_conflict(users: Seq<User>, name: Seq<char>, id: u128) -> bool {
    name_taken(users, name) || user_id_used(users, id)
}

pub open spec fn name_taken_by_other(users: Seq<User>, name: Seq<char>, id: u128) -> bool {
    exists|i: int| 0 <= i < users.len() && #[trigger] users[i].username@ == name && users[i].id != id
}

pub open spec fn user_id_used(users: Seq<User>, id: u128) -> bool {
    exists|i: int| 0 <= i < users.len() && #[trigger] users[i].id == id
}

pub open spec fn is_first_user(users: Seq<User>, i: int, id: u128) -> bool {
    &&& 0 <= i < users.len()
    &&& users[i].id == id
    &&& forall|j: int| 0 <= j < i ==> #[trigger] users[j].id != id
}

/// A stored user that a login attempt names and whose hash accepts the
/// given password.
pub open spec fn login_match(u: User, login: LoginUser) -> bool {
    u.username@ == login.username@ && verify_of(login.password@, u.password@) == Some(true)
}

pub open spec fn is_first_login(users: Seq<User>, i: int, login: LoginUser) -> bool {
    &&& 0 <= i < users.len()
    &&& login_match(users[i], login)
    &&& forall|j: int| 0 <= j < i ==> !#[trigger] login_match(users[j], login)
}

/// The user after a partial update whose password, if any, is already
/// hashed.
pub open spec fn updated_user(u: User, upd: UpdateUser) -> User {
    User {
        id: u.id,
        username: match upd.username {
            Some(n) => n,
            None => u.username,
        },
        password: match upd.password {
            Some(p) => p,
            None => u.password,
        },
    }
}

proof fn lemma_push_unique(users: Seq<User>, u: User)
    requires
        users_unique(users),
        !name_taken(users, u.username@),
        !user_id_used(users, u.id),
    ensures
        users_unique(users.push(u)),
{
    let s = users.push(u);
    assert forall|a: int, b: int|
        0 <= a < s.len() && 0 <= b < s.len() && a != b implies (#[trigger] s[a]).id != (#[trigger] s[b]).id
        && s[a].username@ != s[b].username@ by {
        if a < users.len() {
            assert(s[a] == users[a]);
        }
        if b < users.len() {
            assert(s[b] == users[b]);
        }
    }
}

/// A user registered under a username nobody had logs in with the password
/// that was hashed for it: the login finds exactly that user.
pub proof fn lemma_register_then_login(users: Seq<User>, u: User, attempt: LoginUser)
    requires
        !name_taken(users, u.username@),
        attempt.username@ == u.username@,
        verify_of(attempt.password@, u.password@) == Some(true),
    ensures
        is_first_login(users.push(u), users.len() as int, attempt),
        forall|i: int| #[trigger] is_first_login(users.push(u), i, attempt) ==> i == users.len(),
{
    let s = users.push(u);
    assert forall|j: int| 0 <= j < users.len() implies !#[trigger] login_match(s[j], attempt) by {
        assert(s[j] == users[j]);
        if s[j].username@ == attempt.username@ {
            assert(users[j].username@ == u.username@);
        }
    }
}

/// Whether bcrypt's verdict accepts the password: only a definite yes does.
pub fn accepts(verdict: Option<bool>) -> (r: bool)
    ensures
        r == (verdict == Some(true)),
{
    match verdict {
        Some(true) => true,
        _ => false,
    }
}

fn username_in_use(users: &Vec<User>, name: &String) -> (r: bool)
    ensures
        r == name_taken(users@, name@),
{
    let mut i: usize = 0;
    while i < users.len()
        invariant
            i <= users@.len(),
            forall|j: int| 0 <= j < i ==> #[trigger] users@[j].username@ != name@,
        decreases users@.len() - i,
    {
        if users[i].username == *name {
            return true;
        }
        i += 1;
    }
    false
}

fn username_used_by_other(users: &Vec<User>, name: &String, id: u128) -> (r: bool)
    ensures
        r == name_taken_by_other(users@, name@, id),
{
    let mut i: usize = 0;
    while i < users.len()
        invariant
            i <= users@.len(),
            forall|j: int| 0 <= j < i ==> !(#[trigger] users@[j].username@ == name@ && users@[j].id != id),
        decreases users@.len() - i,
    {
        if users[i].username == *name && users[i].id != id {
            return true;
        }
        i += 1;
    }
    false
}

fn user_position(users: &Vec<User>, id: u128) -> (r: Option<usize>)
    ensures
        r matches Some(i) ==> is_first_user(users@, i as int, id),
        r is None ==> !user_id_used(users@, id),
{
    let mut i: usize = 0;
    while i < users.len()
        invariant
            i <= users@.len(),
            forall|j: int| 0 <= j < i ==> #[trigger] users@[j].id != id,
        decreases users@.len() - i,
    {
        if users[i].id == id {
            return Some(i);
        }
        i += 1;
    }
    None
}

impl NewUser {
    /// The same registration with the password replaced by its bcrypt
    /// hash; `None` if hashing failed.
    pub fn hash_password(&self) -> (r: Option<NewUser>)
        ensures
            r matches Some(h) ==> h.username == self.username && verify_of(self.password@, h.password@)
                == Some(true),
    {
        match bcrypt_hash(self.password.as_str()) {
            Some(hash) => Some(NewUser { username: self.username.clone(), password: hash }),
            None => None,
        }
    }
}

impl UpdateUser {
    /// The same update with the new password, if any, replaced by its
    /// bcrypt hash; `None` if hashing failed.
    pub fn hash_password(self) -> (r: Option<UpdateUser>)
        ensures
            r matches Some(h) ==> {
                &&& h.username == self.username
                &&& self.password is None ==> h.password is None
                &&& self.password matches Some(p) ==> (h.password matches Some(q) && verify_of(p@, q@)
                    == Some(true))
            },
            r is None ==> self.password is Some,
    {
        match self.password {
            Some(p) => match bcrypt_hash(p.as_str()) {
                Some(hash) => Some(UpdateUser { username: self.username, password: Some(hash) }),
                None => None,
            },
            None => Some(UpdateUser { username: self.username, password: None }),
        }
    }
}

impl User {
    /// A field-by-field copy.
    pub fn duplicate(&self) -> (r: User)
        ensures
            r == *self,
    {
        User { id: self.id, username: self.username.clone(), password: self.password.clone() }
    }

    /// Stores a registration whose password is already hashed, under `id`.
    /// Fails with `Conflict`, changing nothing, if the username or the id is
    /// taken.
    pub fn insert(users: &mut Vec<User>, new: NewUser, id: u128) -> (r: Result<User, CrudError>)
        ensures
            if name_taken(old(users)@, new.username@) || user_id_used(old(users)@, id) {
                r == Err::<User, CrudError>(CrudError::Conflict) && final(users)@ == old(users)@
            } else {
                let u = User { id, username: new.username, password: new.password };
                r == Ok::<User, CrudError>(u) && final(users)@ == old(users)@.push(u)
            },
            users_unique(old(users)@) ==> users_unique(final(users)@),
    {
        if username_in_use(users, &new.username) || user_position(users, id).is_some() {
            return Err(CrudError::Conflict);
        }
        let u = User { id, username: new.username, password: new.password };
        users.push(u.duplicate());
        proof {
            if users_unique(old(users)@) {
                lemma_push_unique(old(users)@, u);
            }
        }
        Ok(u)
    }

    /// Registers a user under `id`, storing the bcrypt hash of the password.
    /// Fails with `Conflict` if the username or the id is taken, with
    /// `Internal` if hashing failed; either way nothing changes.
    pub fn create(users: &mut Vec<User>, new: &NewUser, id: u128) -> (r: Result<User, CrudError>)
        ensures
            (name_taken(old(users)@, new.username@) || user_id_used(old(users)@, id)) ==> r == Err::<
                User,
                CrudError,
            >(CrudError::Conflict),
            r matches Ok(u) ==> {
                &&& !name_taken(old(users)@, new.username@)
                &&& !user_id_used(old(users)@, id)
                &&& u.id == id
                &&& u.username@ == new.username@
                &&& verify_of(new.password@, u.password@) == Some(true)
                &&& final(users)@ == old(users)@.push(u)
            },
            r matches Err(e) ==> final(users)@ == old(users)@ && (e == CrudError::Conflict || e
                == CrudError::Internal),
            r == Err::<User, CrudError>(CrudError::Conflict) ==> name_taken(old(users)@, new.username@)
                || user_id_used(old(users)@, id),
            users_unique(old(users)@) ==> users_unique(final(users)@),
    {
        if username_in_use(users, &new.username) || user_position(users, id).is_some() {
            return Err(CrudError::Conflict);
        }
        match new.hash_password() {
            Some(hashed) => User::insert(users, hashed, id),
            None => Err(CrudError::Internal),
        }
    }

    /// Whether this user's stored hash accepts the login's password.
    pub fn verify_password(&self, login: &LoginUser) -> (r: bool)
        ensures
            r == (verify_of(login.password@, self.password@) == Some(true)),
    {
        accepts(bcrypt_verify(login.password.as_str(), self.password.as_str()))
    }

    /// The first stored user with the login's username whose hash accepts
    /// its password; `NotFound` if there is none.
    pub fn find(users: &Vec<User>, login: &LoginUser) -> (r: Result<User, CrudError>)
        ensures
            r matches Ok(u) ==> exists|i: int| is_first_login(users@, i, *login) && u == users@[i],
            r matches Err(e) ==> e == CrudError::NotFound && forall|i: int|
                0 <= i < users@.len() ==> !#[trigger] login_match(users@[i], *login),
    {
        let mut i: usize = 0;
        while i < users.len()
            invariant
                i <= users@.len(),
                forall|j: int| 0 <= j < i ==> !#[trigger] login_match(users@[j], *login),
            decreases users@.len() - i,
        {
            if users[i].username == login.username && users[i].verify_password(login) {
                assert(is_first_login(users@, i as int, *login));
                return Ok(users[i].duplicate());
            }
            i += 1;
        }
        Err(CrudError::NotFound)
    }

    /// The user with this id; `NotFound` if there is none.
    pub fn find_by_id(users: &Vec<User>, id: u128) -> (r: Result<User, CrudError>)
        ensures
            r matches Ok(u) ==> exists|i: int| is_first_user(users@, i, id) && u == users@[i],
            r matches Err(e) ==> e == CrudError::NotFound && !user_id_used(users@, id),
    {
        match user_position(users, id) {
            Some(i) => Ok(users[i].duplicate()),
            None => Err(CrudError::NotFound),
        }
    }

    /// Applies a partial update to the user `id`, hashing a new password.
    /// Fails with `NotFound` if there is no such user, with `Conflict` if the
    /// new username belongs to another user, with `Internal` if hashing
    /// failed; nothing changes then.
    pub fn update(users: &mut Vec<User>, id: u128, upd: UpdateUser) -> (r: Result<User, CrudError>)
        ensures
            !user_id_used(old(users)@, id) ==> r == Err::<User, CrudError>(CrudError::NotFound),
            user_id_used(old(users)@, id) && (upd.username matches Some(n) && name_taken_by_other(
                old(users)@,
                n@,
                id,
            )) ==> r == Err::<User, CrudError>(CrudError::Conflict),
            r matches Err(e) ==> final(users)@ == old(users)@,
            r matches Err(e) ==> {
                ||| e == CrudError::NotFound && !user_id_used(old(users)@, id)
                ||| e == CrudError::Conflict && (upd.username matches Some(n) && name_taken_by_other(
                    old(users)@,
                    n@,
                    id,
                ))
                ||| e == CrudError::Internal && upd.password is Some
            },
            r matches Ok(u) ==> exists|i: int|
                {
                    &&& is_first_user(old(users)@, i, id)
                    &&& u.id == id
                    &&& u.username == (match upd.username {
                        Some(n) => n,
                        None => old(users)@[i].username,
                    })
                    &&& (upd.password is None ==> u.password == old(users)@[i].password)
                    &&& (upd.password matches Some(p) ==> verify_of(p@, u.password@) == Some(true))
                    &&& final(users)@ == old(users)@.update(i, u)
                },
            users_unique(old(users)@) ==> users_unique(final(users)@),
    {
        let i = match user_position(users, id) {
            Some(i) => i,
            None => return Err(CrudError::NotFound),
        };
        if let Some(n) = &upd.username {
            if username_used_by_other(users, n, id) {
                return Err(CrudError::Conflict);
            }
        }
        let ghost requested = upd;
        let hashed = match upd.hash_password() {
            Some(h) => h,
            None => return Err(CrudError::Internal),
        };
        let u = User {
            id,
            username: match hashed.username {
                Some(n) => n,
                None => users[i].username.clone(),
            },
            password: match hashed.password {
                Some(p) => p,
                None => users[i].password.clone(),
            },
        };
        users.set(i, u.duplicate());
        assert(is_first_user(old(users)@, i as int, id));
        proof {
            if users_unique(old(users)@) {
                let o = old(users)@;
                assert forall|a: int, b: int|
                    0 <= a < users@.len() && 0 <= b < users@.len() && a != b implies (#[trigger] users@[a]).id
                    != (#[trigger] users@[b]).id && users@[a].username@ != users@[b].username@ by {
                    if a != i && b != i {
                        assert(users@[a] == o[a] && users@[b] == o[b]);
                    } else {
                        let other = if a == i { b } else { a };
                        assert(users@[other] == o[other]);
                        assert(o[other].id != o[i as int].id);
                        if requested.username is Some {
                            let n = requested.username->Some_0;
                            if o[other].username@ == n@ {
                                assert(name_taken_by_other(o, n@, id));
                            }
                        }
                    }
                }
            }
        }
        Ok(u)
    }

    /// The claims of a token for this user issued at `now`.
    pub fn into_jwt(&self, now: i64) -> (r: Jwt)
        ensures
            r.iss@ == ISSUER@,
            r.sub == self.id,
            r.exp == clamp_i64(now + TOKEN_LIFETIME),
    {
        Jwt::new(ISSUER.to_owned(), TOKEN_LIFETIME, self.id, now)
    }
}

/// Checks a login and, at `now`, issues the claims of a token for the user
/// it names. Fails with `Unauthorized` if no stored user matches.
pub fn login(users: &Vec<User>, attempt: &LoginUser, now: i64) -> (r: Result<Jwt, CrudError>)
    ensures
        r matches Ok(t) ==> exists|i: int|
            is_first_login(users@, i, *attempt) && t.sub == #[trigger] users@[i].id && t.iss@ == ISSUER@
                && t.exp == clamp_i64(now + TOKEN_LIFETIME),
        r matches Err(e) ==> e == CrudError::Unauthorized && forall|i: int|
            0 <= i < users@.len() ==> !#[trigger] login_match(users@[i], *attempt),
{
    match User::find(users, attempt) {
        Ok(u) => Ok(u.into_jwt(now)),
        Err(_) => Err(CrudError::Unauthorized),
    }
}

/// The user a token's claims name; `Unauthorized` if there is none.
pub fn authenticate(users: &Vec<User>, claims: &Jwt) -> (r: Result<User, CrudError>)
    ensures
        r matches Ok(u) ==> exists|i: int| is_first_user(users@, i, claims.sub) && u == users@[i],
        r matches Err(e) ==> e == CrudError::Unauthorized && !user_id_used(users@, claims.sub),
{
    match User::find_by_id(users, claims.sub()) {
        Ok(u) => Ok(u),
        Err(_) => Err(CrudError::Unauthorized),
    }
}

} // verus!
