//! Signup and signin: payload validation, password hashing, and the user
//! directory, in which an e-mail address belongs to at most one user.
use vstd::prelude::*;
use crate::error::ApiError;

verus! {

/// The bcrypt cost with which passwords are hashed.
pub const PASSWORD_COST: u32 = 12;

/// The fewest characters a password may have.
pub const MIN_PASSWORD_LEN: u64 = 6;

/// bcrypt::BcryptError, the error of bcrypt's hash and verify. It is carried
/// through unopened and mapped to the library's own errors.
#[verifier::external_type_specification]
#[verifier::external_body]
pub struct ExBcryptError(bcrypt::BcryptError);

/// Whether validator accepts `s` as an e-mail address.
pub uninterp spec fn email_accepted(s: Seq<char>) -> bool;

/// Whether `password` hashes to the digest stored in bcrypt hash `hash`.
pub uninterp spec fn password_matches(password: Seq<char>, hash: Seq<char>) -> bool;

/// Whether `hash` can be read as a bcrypt hash (prefix, cost, salt, digest).
pub uninterp spec fn bcrypt_readable(hash: Seq<char>) -> bool;

/// Relies on validator::validate_email: whether `s` has the shape of an
/// e-mail address. An empty string, or one without `@`, never has it.
#[verifier::external_body]
fn is_email(s: &str) -> (r: bool)
    ensures
        r == email_accepted(s@),
        s@.len() == 0 ==> !r,
        !s@.contains('@') ==> !r,
{
    validator::validate_email(s)
}

/// Relies on validator::validate_length with a lower bound alone: whether `s`
/// has at least `min` characters.
#[verifier::external_body]
fn has_min_length(s: &str, min: u64) -> (r: bool)
    ensures
        r == (s@.len() >= min),
{
    validator::validate_length(s, Some(min), None, None)
}

/// Relies on bcrypt::hash: the password hashed at `cost` under a random salt
/// from the OS. The text is not fixed, but it is a bcrypt hash that
/// bcrypt::verify reads and under which the same password matches.
#[verifier::external_body]
fn bcrypt_hash(password: &str, cost: u32) -> (r: Result<String, bcrypt::BcryptError>)
    ensures
        r matches Ok(h) ==> bcrypt_readable(h@) && password_matches(password@, h@),
{
    bcrypt::hash(password, cost)
}

/// Relies on bcrypt::verify: reads `hash`, fails when it is not a bcrypt
/// hash, and otherwise tells whether `password` hashes to its digest.
#[verifier::external_body]
fn bcrypt_verify(password: &str, hash: &str) -> (r: Result<bool, bcrypt::BcryptError>)
    ensures
        r is Ok <==> bcrypt_readable(hash@),
        r matches Ok(b) ==> b == password_matches(password@, hash@),
{
    bcrypt::verify(password, hash)
}

/// The credentials of a signup or signin.
#[derive(Debug, Clone)]
pub struct SignUser {
    pub email: String,
    pub password: String,
}

/// A stored user. The password hash never leaves the service.
#[derive(Debug, Clone)]
pub struct User {
    pub id: u128,
    pub user_email: String,
    pub password_hash: String,
    pub create_time: i64,
}

/// The credentials pass validation: an accepted e-mail address and a
/// password of at least six characters.
pub open spec fn valid_credentials(u: SignUser) -> bool {
    email_accepted(u.email@) && u.password@.len() >= MIN_PASSWORD_LEN
}

/// Checks the shape of the credentials; a failure is a bad request.
pub fn validate_payload(u: &SignUser) -> (r: Result<(), ApiError>)
    ensures
        r is Ok <==> valid_credentials(*u),
        r is Err ==> r == Err::<(), ApiError>(ApiError::BadRequest),
{
    if is_email(u.email.as_str()) && has_min_length(u.password.as_str(), MIN_PASSWORD_LEN) {
        Ok(())
    } else {
        Err(ApiError::BadRequest)
    }
}

/// Hashes a password at the fixed cost. The hash is readable and the
/// password matches it; a failure of the hash function (no randomness
/// available) is internal.
pub fn hash_password(password: &str) -> (r: Result<String, ApiError>)
    ensures
        r is Err ==> r == Err::<String, ApiError>(ApiError::Internal),
        r matches Ok(h) ==> bcrypt_readable(h@) && password_matches(password@, h@),
{
    match bcrypt_hash(password, PASSWORD_COST) {
        Ok(h) => Ok(h),
        Err(_) => Err(ApiError::Internal),
    }
}

/// Checks a password against a stored hash: `true` when it matches, `false`
/// when it does not or when the stored text is no bcrypt hash.
pub fn verify_password(password: &str, hash: &str) -> (r: bool)
    ensures
        r == (bcrypt_readable(hash@) && password_matches(password@, hash@)),
{
    match bcrypt_verify(password, hash) {
        Ok(b) => b,
        Err(_) => false,
    }
}

/// Some user has e-mail address `email`.
pub open spec fn email_taken(users: Seq<User>, email: Seq<char>) -> bool {
    exists|k: int| 0 <= k < users.len() && users[k].user_email@ == email
}

/// The users of the identity database.
pub struct UserDirectory {
    pub users: Vec<User>,
}

impl UserDirectory {
    /// No two users share an e-mail address.
    pub open spec fn wf(&self) -> bool {
        forall|i: int, j: int|
            0 <= i < j < self.users@.len() ==> self.users@[i].user_email@ != self.users@[j].user_email@
    }

    /// An empty directory.
    pub fn new() -> (r: Self)
        ensures
            r.wf(),
            r.users@.len() == 0,
    {
        UserDirectory { users: Vec::new() }
    }

    /// Position of the user with e-mail address `email`.
    pub fn find_by_email(&self, email: &str) -> (r: Option<usize>)
        ensures
            r is None <==> !email_taken(self.users@, email@),
            r matches Some(k) ==> k < self.users@.len() && self.users@[k as int].user_email@ == email@,
    {
        let target = email.to_string();
        let mut k: usize = 0;
        while k < self.users.len()
            invariant
                k <= self.users@.len(),
                target@ == email@,
                forall|j: int| 0 <= j < k ==> self.users@[j].user_email@ != email@,
            decreases self.users@.len() - k,
        {
            if self.users[k].user_email == target {
                assert(email_taken(self.users@, email@));
                return Some(k);
            }
            k = k + 1;
        }
        None
    }

    /// Stores a new user under a fresh id. An e-mail address that is already
    /// taken is refused as a duplicate and nothing changes.
    pub fn register(&mut self, email: &str, password_hash: String, id: u128, create_time: i64) -> (r: Result<(), ApiError>)
        requires
            old(self).wf(),
        ensures
            final(self).wf(),
            email_taken(old(self).users@, email@) ==> r == Err::<(), ApiError>(ApiError::DuplicateUserEmail)
                && *final(self) == *old(self),
            !email_taken(old(self).users@, email@) ==> r is Ok && final(self).users@.drop_last() == old(self).users@
                && final(self).users@.len() == old(self).users@.len() + 1
                && final(self).users@.last().id == id
                && final(self).users@.last().user_email@ == email@
                && final(self).users@.last().password_hash@ == password_hash@
                && final(self).users@.last().create_time == create_time,
            r is Ok ==> email_taken(final(self).users@, email@),
    {
        if self.find_by_email(email).is_some() {
            return Err(ApiError::DuplicateUserEmail);
        }
        self.users.push(User { id, user_email: email.to_string(), password_hash, create_time });
        proof {
            assert(self.users@.drop_last() =~= old(self).users@);
            assert(self.users@[self.users@.len() - 1].user_email@ == email@);
            assert forall|i: int, j: int|
                0 <= i < j < self.users@.len() implies self.users@[i].user_email@ != self.users@[j].user_email@ by {
                if j == self.users@.len() - 1 {
                    assert(self.users@[i] == old(self).users@[i]);
                }
            }
        }
        Ok(())
    }

    /// Signs a user up: the credentials are validated (bad request), the
    /// address must be free (duplicate), and the password is hashed before
    /// the user is stored under `id` with a hash that the password matches.
    /// When hashing fails nothing is stored and the error is internal.
    pub fn sign_up(&mut self, creds: &SignUser, id: u128, create_time: i64) -> (r: Result<u128, ApiError>)
        requires
            old(self).wf(),
        ensures
            final(self).wf(),
            !valid_credentials(*creds) ==> r == Err::<u128, ApiError>(ApiError::BadRequest)
                && *final(self) == *old(self),
            valid_credentials(*creds) && email_taken(old(self).users@, creds.email@)
                ==> r == Err::<u128, ApiError>(ApiError::DuplicateUserEmail) && *final(self) == *old(self),
            valid_credentials(*creds) && !email_taken(old(self).users@, creds.email@) ==> {
                ||| r == Err::<u128, ApiError>(ApiError::Internal) && *final(self) == *old(self)
                ||| r == Ok::<u128, ApiError>(id) && final(self).users@.drop_last() == old(self).users@
                    && final(self).users@.len() == old(self).users@.len() + 1
                    && final(self).users@.last().id == id
                    && final(self).users@.last().user_email@ == creds.email@
                    && final(self).users@.last().create_time == create_time
                    && bcrypt_readable(final(self).users@.last().password_hash@)
                    && password_matches(creds.password@, final(self).users@.last().password_hash@)
            },
    {
        validate_payload(creds)?;
        if self.find_by_email(creds.email.as_str()).is_some() {
            return Err(ApiError::DuplicateUserEmail);
        }
        let hash = hash_password(creds.password.as_str())?;
        self.register(creds.email.as_str(), hash, id, create_time)?;
        Ok(id)
    }

    /// Signs a user in: the id of the user with this address when the
    /// password matches the stored hash. Invalid credentials are a bad
    /// request; an unknown address and a wrong password give the same error.
    pub fn sign_in(&self, creds: &SignUser) -> (r: Result<u128, ApiError>)
        requires
            self.wf(),
        ensures
            !valid_credentials(*creds) ==> r == Err::<u128, ApiError>(ApiError::BadRequest),
            valid_credentials(*creds) ==> match r {
                Ok(id) => exists|k: int|
                    0 <= k < self.users@.len() && #[trigger] self.users@[k].user_email@ == creds.email@
                        && self.users@[k].id == id
                        && bcrypt_readable(self.users@[k].password_hash@)
                        && password_matches(creds.password@, self.users@[k].password_hash@),
                Err(e) => e == ApiError::WrongCredentials && forall|k: int|
                    0 <= k < self.users@.len() && #[trigger] self.users@[k].user_email@ == creds.email@
                        ==> !(bcrypt_readable(self.users@[k].password_hash@)
                        && password_matches(creds.password@, self.users@[k].password_hash@)),
            },
    {
        validate_payload(creds)?;
        match self.find_by_email(creds.email.as_str()) {
            Some(k) => {
                let u = &self.users[k];
                if verify_password(creds.password.as_str(), u.password_hash.as_str()) {
                    Ok(u.id)
                } else {
                    proof {
                        assert forall|j: int|
                            0 <= j < self.users@.len() && #[trigger] self.users@[j].user_email@ == creds.email@
                            implies j == k by {
                            if j < k {
                                assert(self.users@[j].user_email@ != self.users@[k as int].user_email@);
                            } else if k < j {
                                assert(self.users@[k as int].user_email@ != self.users@[j].user_email@);
                            }
                        }
                    }
                    Err(ApiError::WrongCredentials)
                }
            },
            None => Err(ApiError::WrongCredentials),
        }
    }
}

/// In a well-formed directory an e-mail address belongs to at most one user.
pub proof fn lemma_one_user_per_email(d: UserDirectory, i: int, j: int)
    requires
        d.wf(),
        0 <= i < d.users@.len(),
        0 <= j < d.users@.len(),
        d.users@[i].user_email@ == d.users@[j].user_email@,
    ensures
        i == j,
{
    if i < j {
        assert(d.users@[i].user_email@ != d.users@[j].user_email@);
    } else if j < i {
        assert(d.users@[j].user_email@ != d.users@[i].user_email@);
    }
}

} // verus!
