//! User accounts: the record type, the public-facing representation, the
//! users table model, and the operations the application performs on it.

use vstd::prelude::*;
use crate::error::Error;
use crate::error::is_duplicate_email_error;
use crate::error::is_internal_error;

verus! {

/// A user of the system.
#[derive(Debug)]
pub struct User {
    /// Object id, assigned by the storage layer.
    pub id: i64,
    /// The user's email address.
    pub email: String,
    /// The user's password hash.
    pub pwhash: String,
}

/// Mathematical image of a `User`.
#[verifier::ext_equal]
pub ghost struct UserV {
    pub id: int,
    pub email: Seq<char>,
    pub pwhash: Seq<char>,
}

impl View for User {
    type V = UserV;

    open spec fn view(&self) -> UserV {
        UserV { id: self.id as int, email: self.email@, pwhash: self.pwhash@ }
    }
}

/// The externally visible user shape: id, email and the session token the
/// authentication layer issued — never the password hash.
#[derive(Debug)]
pub struct PublicUser {
    /// Object id.
    pub id: i64,
    /// The user's email address.
    pub email: String,
    /// The session token, issued by the authentication layer.
    pub jwt: String,
}

/// Mathematical image of a `PublicUser`.
#[verifier::ext_equal]
pub ghost struct PublicUserV {
    pub id: int,
    pub email: Seq<char>,
    pub jwt: Seq<char>,
}

impl View for PublicUser {
    type V = PublicUserV;

    open spec fn view(&self) -> PublicUserV {
        PublicUserV { id: self.id as int, email: self.email@, jwt: self.jwt@ }
    }
}

impl Clone for User {
    fn clone(&self) -> (r: Self)
        ensures
            r == *self,
    {
        User { id: self.id, email: self.email.clone(), pwhash: self.pwhash.clone() }
    }
}

/// The mathematical image of a run of user rows.
pub open spec fn view_users(v: Seq<User>) -> Seq<UserV> {
    v.map_values(|u: User| u@)
}

/// Does some row of the table carry the given email?
pub open spec fn email_taken(s: Seq<UserV>, email: Seq<char>) -> bool {
    exists|i: int| 0 <= i < s.len() && (#[trigger] s[i]).email == email
}

/// Does some row of the table carry the given id?
pub open spec fn id_taken(s: Seq<UserV>, id: int) -> bool {
    exists|i: int| 0 <= i < s.len() && (#[trigger] s[i]).id == id
}

/// The users table: the rows it holds and the next object id the storage
/// layer will assign. Writes take the store exclusively; reads share it.
#[derive(Debug)]
pub struct UserStore {
    /// The rows, in insertion order.
    pub rows: Vec<User>,
    /// The next object id to assign.
    pub next_id: i64,
}

impl UserStore {
    /// Every row's id was assigned below `next_id`, no two rows share an id,
    /// and — the storage-enforced uniqueness — no two rows share an email.
    pub open spec fn well_formed(&self) -> bool {
        &&& 1 <= self.next_id
        &&& forall|i: int|
            0 <= i < self.rows@.len() ==> 0 < (#[trigger] self.rows@[i])@.id < self.next_id
        &&& forall|i: int, j: int|
            0 <= i < j < self.rows@.len() ==> self.rows@[i]@.id != self.rows@[j]@.id
        &&& forall|i: int, j: int|
            0 <= i < j < self.rows@.len() ==> self.rows@[i]@.email != self.rows@[j]@.email
    }

    /// An empty table, about to assign id 1.
    pub fn new() -> (r: UserStore)
        ensures
            r.well_formed(),
            r@ == Seq::<UserV>::empty(),
            r.next_id == 1,
    {
        let r = UserStore { rows: Vec::new(), next_id: 1 };
        proof {
            assert(r@ =~= Seq::<UserV>::empty());
        }
        r
    }
}

impl View for UserStore {
    type V = Seq<UserV>;

    open spec fn view(&self) -> Seq<UserV> {
        view_users(self.rows@)
    }
}

/// Find the first row carrying the given email, if any.
fn find_email(rows: &Vec<User>, email: &String) -> (r: Option<usize>)
    ensures
        r matches Some(i) ==> i < rows@.len() && rows@[i as int]@.email == email@,
        r is None ==> !email_taken(view_users(rows@), email@),
{
    let mut i: usize = 0;
    while i < rows.len()
        invariant
            i <= rows@.len(),
            forall|j: int| 0 <= j < i ==> (#[trigger] rows@[j])@.email != email@,
        decreases rows@.len() - i,
    {
        if rows[i].email == *email {
            return Some(i);
        }
        i += 1;
    }
    proof {
        assert forall|j: int| 0 <= j < view_users(rows@).len() implies (#[trigger] view_users(
            rows@,
        )[j]).email != email@ by {
            assert(view_users(rows@)[j] == rows@[j]@);
        }
    }
    None
}

impl User {
    /// Create a new account. Exactly when the email is already taken, the
    /// distinguished duplicate-email error comes back and the table is
    /// untouched; the only other failure the table itself can produce is
    /// running out of ids, surfaced as the generic storage error.
    pub fn insert(email: String, pwhash: String, tx: &mut UserStore) -> (r: Result<User, Error>)
        requires
            old(tx).well_formed(),
        ensures
            final(tx).well_formed(),
            r is Ok <==> (!email_taken(old(tx)@, email@) && old(tx).next_id < i64::MAX),
            r matches Ok(u) ==> {
                &&& u@ == (UserV { id: old(tx).next_id as int, email: email@, pwhash: pwhash@ })
                &&& final(tx)@ == old(tx)@.push(u@)
                &&& final(tx).next_id == old(tx).next_id + 1
            },
            email_taken(old(tx)@, email@) ==> (r matches Err(e) && is_duplicate_email_error(e@)),
            !email_taken(old(tx)@, email@) && old(tx).next_id == i64::MAX ==> (r matches Err(e)
                && is_internal_error(e@) && e@.cause is None),
            r is Err ==> *final(tx) == *old(tx),
    {
        match find_email(&tx.rows, &email) {
            Some(i) => {
                proof {
                    assert((#[trigger] view_users(tx.rows@)[i as int]).email == email@);
                }
                Err(Error::new("That email address is already taken.".to_owned(), 400, None))
            },
            None => {
                if tx.next_id == i64::MAX {
                    return Err(Error::new_ise());
                }
                let id = tx.next_id;
                let row = User { id, email, pwhash };
                let out = row.clone();
                let ghost rows_before = tx.rows@;
                tx.rows.push(row);
                tx.next_id = id + 1;
                proof {
                    broadcast use vstd::prelude::Seq::lemma_push_map_commute;

                    assert(tx@ == view_users(rows_before).push(out@));
                    assert forall|i: int, j: int|
                        0 <= i < j < tx.rows@.len() implies tx.rows@[i]@.email
                        != tx.rows@[j]@.email by {
                        if j == tx.rows@.len() - 1 {
                            assert(view_users(rows_before)[i] == rows_before[i]@);
                            assert(tx.rows@[i] == rows_before[i]);
                        }
                    }
                }
                Ok(out)
            },
        }
    }

    /// The account carrying the given email, or nothing — never an error —
    /// when no account does.
    pub fn find_by_email(email: String, db: &UserStore) -> (r: Result<Option<User>, Error>)
        ensures
            r matches Ok(o) && (o is Some <==> email_taken(db@, email@)),
            r matches Ok(o) && (o matches Some(u) ==> db@.contains(u@) && u@.email == email@),
    {
        match find_email(&db.rows, &email) {
            Some(i) => {
                let u = db.rows[i].clone();
                proof {
                    assert(db@[i as int] == db.rows@[i as int]@);
                    assert(db@.contains(db@[i as int]));
                }
                Ok(Some(u))
            },
            None => Ok(None),
        }
    }

    /// The account carrying the given id, or nothing — never an error — when
    /// no account does.
    pub fn find_by_id(id: i64, db: &UserStore) -> (r: Result<Option<User>, Error>)
        ensures
            r matches Ok(o) && (o is Some <==> id_taken(db@, id as int)),
            r matches Ok(o) && (o matches Some(u) ==> db@.contains(u@) && u@.id == id as int),
    {
        let mut i: usize = 0;
        while i < db.rows.len()
            invariant
                i <= db.rows@.len(),
                forall|j: int| 0 <= j < i ==> (#[trigger] db.rows@[j])@.id != id as int,
            decreases db.rows@.len() - i,
        {
            if db.rows[i].id == id {
                let u = db.rows[i].clone();
                proof {
                    assert(db@[i as int] == db.rows@[i as int]@);
                    assert(db@.contains(db@[i as int]));
                }
                return Ok(Some(u));
            }
            i += 1;
        }
        proof {
            assert forall|j: int| 0 <= j < db@.len() implies (#[trigger] db@[j]).id != id as int by {
                assert(db@[j] == db.rows@[j]@);
            }
        }
        Ok(None)
    }

    /// Transform into the externally visible user shape, embedding the session
    /// token the authentication layer issued; the password hash is left behind.
    pub fn into_common(self, jwt: String) -> (r: PublicUser)
        ensures
            r@ == (PublicUserV { id: self@.id, email: self@.email, jwt: jwt@ }),
    {
        PublicUser { id: self.id, email: self.email, jwt }
    }
}

/// Once an account with some email stands in the table, that email is taken:
/// so after one insert of an email succeeds, a second insert of the same
/// email must return the distinguished duplicate-email error, the table
/// unchanged.
pub proof fn lemma_email_taken_after_insert(s: Seq<UserV>, u: UserV)
    ensures
        email_taken(s.push(u), u.email),
{
    assert(s.push(u)[s.len() as int] == u);
}

} // verus!
