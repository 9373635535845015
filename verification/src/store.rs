//! Credential store.
//!
//! Holds the credential records of the authentication store, conceptually
//! the table `auths(id, email UNIQUE, hash, subject_id, refresh_token)`.
//! The store keeps e-mails, account ids and community (subject) ids
//! unique; every mutation states exactly which records it touches.

use vstd::prelude::*;

use crate::email::Email;
use crate::jwt::RefreshToken;

verus! {

/// Mathematical model of one credential record.
pub ghost struct AuthView {
    pub id: Seq<char>,
    pub email: Seq<char>,
    pub hash: Seq<char>,
    pub community_id: Seq<char>,
    pub refresh_token: Seq<char>,
}

/// A credential record: account id, normalized e-mail, password hash,
/// community (subject) id, and the single currently-valid refresh token
/// (empty when logged out).
#[derive(Debug)]
pub struct Auth {
    pub id: String,
    pub email: Email,
    pub hash: String,
    pub community_id: String,
    pub refresh_token: RefreshToken,
}

impl View for Auth {
    type V = AuthView;

    open spec fn view(&self) -> AuthView {
        AuthView {
            id: self.id@,
            email: self.email@,
            hash: self.hash@,
            community_id: self.community_id@,
            refresh_token: self.refresh_token@,
        }
    }
}

/// Some record carries this e-mail.
pub open spec fn contains_email(s: Seq<AuthView>, email: Seq<char>) -> bool {
    exists|i: int| 0 <= i < s.len() && #[trigger] s[i].email == email
}

/// Some record carries this account id.
pub open spec fn contains_id(s: Seq<AuthView>, id: Seq<char>) -> bool {
    exists|i: int| 0 <= i < s.len() && #[trigger] s[i].id == id
}

/// Some record carries this community (subject) id.
pub open spec fn contains_community_id(s: Seq<AuthView>, community_id: Seq<char>) -> bool {
    exists|i: int| 0 <= i < s.len() && #[trigger] s[i].community_id == community_id
}

/// E-mails, account ids and community ids are pairwise distinct across
/// records.
pub open spec fn records_unique(s: Seq<AuthView>) -> bool {
    &&& forall|i: int, j: int|
        0 <= i < j < s.len() ==> #[trigger] s[i].email != #[trigger] s[j].email
    &&& forall|i: int, j: int| 0 <= i < j < s.len() ==> #[trigger] s[i].id != #[trigger] s[j].id
    &&& forall|i: int, j: int|
        0 <= i < j < s.len() ==> #[trigger] s[i].community_id != #[trigger] s[j].community_id
}

/// The in-memory credential store.
pub struct CredentialStore {
    records: Vec<Auth>,
}

impl View for CredentialStore {
    type V = Seq<AuthView>;

    closed spec fn view(&self) -> Seq<AuthView> {
        self.records@.map_values(|a: Auth| a@)
    }
}

impl CredentialStore {
    /// The store invariant: record keys are unique.
    pub open spec fn wf(&self) -> bool {
        records_unique(self@)
    }

    /// An empty store.
    pub fn new() -> (r: CredentialStore)
        ensures
            r@ == Seq::<AuthView>::empty(),
            r.wf(),
    {
        let r = CredentialStore { records: Vec::new() };
        proof {
            assert(r@ =~= Seq::<AuthView>::empty());
        }
        r
    }

    /// The number of records held.
    pub fn len(&self) -> (r: usize)
        ensures
            r == self@.len(),
    {
        self.records.len()
    }

    /// Read access to the record at an index.
    pub fn record_at(&self, i: usize) -> (r: &Auth)
        requires
            i < self@.len(),
        ensures
            r@ == self@[i as int],
    {
        &self.records[i]
    }

    /// Existence check by normalized e-mail.
    #[verifier::loop_isolation(false)]
    pub fn does_email_exist(&self, email: &str) -> (r: bool)
        ensures
            r == contains_email(self@, email@),
    {
        let n = self.records.len();
        let mut i: usize = 0;
        while i < n
            invariant
                n == self@.len(),
                i <= n,
                forall|j: int| 0 <= j < i ==> #[trigger] self@[j].email != email@,
            decreases n - i,
        {
            if str_eq(self.records[i].email.as_str(), email) {
                proof {
                    assert(self@[i as int].email == email@);
                }
                return true;
            }
            i += 1;
        }
        false
    }

    /// The index of the record carrying this e-mail, if any.
    #[verifier::loop_isolation(false)]
    pub fn index_of_email(&self, email: &str) -> (r: Option<usize>)
        ensures
            r is Some <==> contains_email(self@, email@),
            r matches Some(i) ==> i < self@.len() && self@[i as int].email == email@,
    {
        let n = self.records.len();
        let mut i: usize = 0;
        while i < n
            invariant
                n == self@.len(),
                i <= n,
                forall|j: int| 0 <= j < i ==> #[trigger] self@[j].email != email@,
            decreases n - i,
        {
            if str_eq(self.records[i].email.as_str(), email) {
                proof {
                    assert(self@[i as int].email == email@);
                }
                return Some(i);
            }
            i += 1;
        }
        None
    }

    /// Existence check by account id.
    #[verifier::loop_isolation(false)]
    pub fn does_id_exist(&self, id: &str) -> (r: bool)
        ensures
            r == contains_id(self@, id@),
    {
        let n = self.records.len();
        let mut i: usize = 0;
        while i < n
            invariant
                n == self@.len(),
                i <= n,
                forall|j: int| 0 <= j < i ==> #[trigger] self@[j].id != id@,
            decreases n - i,
        {
            if str_eq(self.records[i].id.as_str(), id) {
                proof {
                    assert(self@[i as int].id == id@);
                }
                return true;
            }
            i += 1;
        }
        false
    }

    /// The index of the record carrying this account id, if any.
    #[verifier::loop_isolation(false)]
    pub fn index_of_id(&self, id: &str) -> (r: Option<usize>)
        ensures
            r is Some <==> contains_id(self@, id@),
            r matches Some(i) ==> i < self@.len() && self@[i as int].id == id@,
    {
        let n = self.records.len();
        let mut i: usize = 0;
        while i < n
            invariant
                n == self@.len(),
                i <= n,
                forall|j: int| 0 <= j < i ==> #[trigger] self@[j].id != id@,
            decreases n - i,
        {
            if str_eq(self.records[i].id.as_str(), id) {
                proof {
                    assert(self@[i as int].id == id@);
                }
                return Some(i);
            }
            i += 1;
        }
        None
    }

    /// The index of the record carrying this community id, if any.
    #[verifier::loop_isolation(false)]
    pub fn index_of_community_id(&self, community_id: &str) -> (r: Option<usize>)
        ensures
            r is Some <==> contains_community_id(self@, community_id@),
            r matches Some(i) ==> i < self@.len() && self@[i as int].community_id
                == community_id@,
    {
        let n = self.records.len();
        let mut i: usize = 0;
        while i < n
            invariant
                n == self@.len(),
                i <= n,
                forall|j: int| 0 <= j < i ==> #[trigger] self@[j].community_id != community_id@,
            decreases n - i,
        {
            if str_eq(self.records[i].community_id.as_str(), community_id) {
                proof {
                    assert(self@[i as int].community_id == community_id@);
                }
                return Some(i);
            }
            i += 1;
        }
        None
    }

    /// Inserts a record, enforcing key uniqueness as the store's schema
    /// does.  Succeeds exactly when no present record shares the new
    /// record's e-mail, account id or community id.
    pub fn insert(&mut self, auth: Auth) -> (r: bool)
        requires
            old(self).wf(),
        ensures
            final(self).wf(),
            r == (!contains_email(old(self)@, auth@.email) && !contains_id(
                old(self)@,
                auth@.id,
            ) && !contains_community_id(old(self)@, auth@.community_id)),
            r ==> final(self)@ == old(self)@.push(auth@),
            !r ==> final(self)@ == old(self)@,
    {
        let dup_email = self.does_email_exist(auth.email.as_str());
        let dup_id = self.does_id_exist(auth.id.as_str());
        let dup_cid = self.index_of_community_id(auth.community_id.as_str()).is_some();
        if dup_email || dup_id || dup_cid {
            return false;
        }
        let ghost pre = self@;
        self.records.push(auth);
        proof {
            assert(self@ =~= pre.push(auth@));
            assert forall|i: int, j: int| 0 <= i < j < self@.len() implies #[trigger] self@[i].email
                != #[trigger] self@[j].email by {
                if j == self@.len() - 1 {
                    assert(self@[i] == pre[i]);
                }
            }
            assert forall|i: int, j: int| 0 <= i < j < self@.len() implies #[trigger] self@[i].id
                != #[trigger] self@[j].id by {
                if j == self@.len() - 1 {
                    assert(self@[i] == pre[i]);
                }
            }
            assert forall|i: int, j: int| 0 <= i < j
                < self@.len() implies #[trigger] self@[i].community_id
                != #[trigger] self@[j].community_id by {
                if j == self@.len() - 1 {
                    assert(self@[i] == pre[i]);
                }
            }
        }
        true
    }

    /// Stores `token` as the refresh token of the record carrying
    /// `email`; every other record is untouched.
    #[verifier::loop_isolation(false)]
    pub fn set_refresh_token_by_email(&mut self, email: &str, token: &RefreshToken)
        requires
            old(self).wf(),
        ensures
            final(self).wf(),
            final(self)@.len() == old(self)@.len(),
            forall|i: int|
                0 <= i < old(self)@.len() ==> final(self)@[i] == (if old(self)@[i].email == email@ {
                    (AuthView { refresh_token: token@, ..old(self)@[i] })
                } else {
                    old(self)@[i]
                }),
    {
        let n = self.records.len();
        let mut i: usize = 0;
        while i < n
            invariant
                n == self@.len() == old(self)@.len(),
                i <= n,
                forall|j: int|
                    0 <= j < old(self)@.len() ==> self@[j] == (if j < i && old(self)@[j].email
                        == email@ {
                        (AuthView { refresh_token: token@, ..old(self)@[j] })
                    } else {
                        old(self)@[j]
                    }),
            decreases n - i,
        {
            if str_eq(self.records[i].email.as_str(), email) {
                let ghost pre = self@;
                self.records[i].refresh_token = token.duplicate();
                proof {
                    assert(self@ =~= pre.update(
                        i as int,
                        AuthView { refresh_token: token@, ..pre[i as int] },
                    ));
                }
            }
            i += 1;
        }
        proof {
            lemma_same_keys_unique(old(self)@, self@);
        }
    }

    /// Clears the refresh token of every record carrying this community
    /// id (the logged-out state); every other record is untouched.
    #[verifier::loop_isolation(false)]
    pub fn clear_refresh_token_by_community_id(&mut self, community_id: &str)
        requires
            old(self).wf(),
        ensures
            final(self).wf(),
            final(self)@.len() == old(self)@.len(),
            forall|i: int|
                0 <= i < old(self)@.len() ==> final(self)@[i] == (if old(self)@[i].community_id
                    == community_id@ {
                    (AuthView { refresh_token: Seq::<char>::empty(), ..old(self)@[i] })
                } else {
                    old(self)@[i]
                }),
    {
        let n = self.records.len();
        let mut i: usize = 0;
        while i < n
            invariant
                n == self@.len() == old(self)@.len(),
                i <= n,
                forall|j: int|
                    0 <= j < old(self)@.len() ==> self@[j] == (if j < i
                        && old(self)@[j].community_id == community_id@ {
                        (AuthView { refresh_token: Seq::<char>::empty(), ..old(self)@[j] })
                    } else {
                        old(self)@[j]
                    }),
            decreases n - i,
        {
            if str_eq(self.records[i].community_id.as_str(), community_id) {
                let ghost pre = self@;
                self.records[i].refresh_token = RefreshToken::empty();
                proof {
                    assert(self@ =~= pre.update(
                        i as int,
                        AuthView { refresh_token: Seq::<char>::empty(), ..pre[i as int] },
                    ));
                }
            }
            i += 1;
        }
        proof {
            lemma_same_keys_unique(old(self)@, self@);
        }
    }

    /// Stores a new password hash on the record carrying this community
    /// id; every other record is untouched.
    #[verifier::loop_isolation(false)]
    pub fn set_hash_by_community_id(&mut self, community_id: &str, hash: &str)
        requires
            old(self).wf(),
        ensures
            final(self).wf(),
            final(self)@.len() == old(self)@.len(),
            forall|i: int|
                0 <= i < old(self)@.len() ==> final(self)@[i] == (if old(self)@[i].community_id
                    == community_id@ {
                    (AuthView { hash: hash@, ..old(self)@[i] })
                } else {
                    old(self)@[i]
                }),
    {
        let n = self.records.len();
        let mut i: usize = 0;
        while i < n
            invariant
                n == self@.len() == old(self)@.len(),
                i <= n,
                forall|j: int|
                    0 <= j < old(self)@.len() ==> self@[j] == (if j < i
                        && old(self)@[j].community_id == community_id@ {
                        (AuthView { hash: hash@, ..old(self)@[j] })
                    } else {
                        old(self)@[j]
                    }),
            decreases n - i,
        {
            if str_eq(self.records[i].community_id.as_str(), community_id) {
                let ghost pre = self@;
                self.records[i].hash = String::from_str(hash);
                proof {
                    assert(self@ =~= pre.update(
                        i as int,
                        AuthView { hash: hash@, ..pre[i as int] },
                    ));
                }
            }
            i += 1;
        }
        proof {
            lemma_same_keys_unique(old(self)@, self@);
        }
    }

    /// Stores a new e-mail on the record carrying this community id,
    /// enforcing e-mail uniqueness as the store's schema does.  With no
    /// matching record nothing changes and the update still reports
    /// success, as an update of zero rows does.
    pub fn set_email_by_community_id(&mut self, community_id: &str, email: Email) -> (r: bool)
        requires
            old(self).wf(),
        ensures
            final(self).wf(),
            r == !(exists|i: int|
                0 <= i < old(self)@.len() && #[trigger] old(self)@[i].email == email@ && old(
                    self,
                )@[i].community_id != community_id@),
            !r ==> final(self)@ == old(self)@,
            r ==> final(self)@.len() == old(self)@.len() && forall|i: int|
                0 <= i < old(self)@.len() ==> final(self)@[i] == (if old(self)@[i].community_id
                    == community_id@ {
                    (AuthView { email: email@, ..old(self)@[i] })
                } else {
                    old(self)@[i]
                }),
    {
        // A record other than the target carrying the new e-mail would
        // break uniqueness; the store rejects the update.
        let conflict = self.find_email_conflict(community_id, email.as_str());
        if conflict {
            return false;
        }
        match self.index_of_community_id(community_id) {
            None => {
                proof {
                    assert forall|i: int| 0 <= i < self@.len() implies self@[i] == (if self@[i]
                        .community_id == community_id@ {
                        (AuthView { email: email@, ..self@[i] })
                    } else {
                        self@[i]
                    }) by {}
                }
                true
            },
            Some(i) => {
                let ghost pre = self@;
                self.records[i].email = email;
                proof {
                    assert(self@ =~= pre.update(
                        i as int,
                        AuthView { email: email@, ..pre[i as int] },
                    ));
                    assert forall|a: int, b: int| 0 <= a < b
                        < self@.len() implies #[trigger] self@[a].email
                        != #[trigger] self@[b].email by {
                        assert(pre[a].email != pre[b].email);
                        if a == i {
                            // The only other record carrying the new
                            // e-mail could be the target itself.
                            assert(pre[b].email != email@ || pre[b].community_id == community_id@);
                            assert(pre[b].community_id != pre[i as int].community_id);
                        }
                        if b == i {
                            assert(pre[a].email != email@ || pre[a].community_id == community_id@);
                            assert(pre[a].community_id != pre[i as int].community_id);
                        }
                    }
                    assert forall|a: int, b: int| 0 <= a < b
                        < self@.len() implies #[trigger] self@[a].id != #[trigger] self@[b].id by {
                        assert(pre[a].id != pre[b].id);
                    }
                    assert forall|a: int, b: int| 0 <= a < b
                        < self@.len() implies #[trigger] self@[a].community_id
                        != #[trigger] self@[b].community_id by {
                        assert(pre[a].community_id != pre[b].community_id);
                    }
                }
                true
            },
        }
    }

    /// Whether a record other than the one carrying `community_id`
    /// already holds `email`.
    #[verifier::loop_isolation(false)]
    fn find_email_conflict(&self, community_id: &str, email: &str) -> (r: bool)
        ensures
            r == exists|i: int|
                0 <= i < self@.len() && #[trigger] self@[i].email == email@ && self@[i].community_id
                    != community_id@,
    {
        let n = self.records.len();
        let mut i: usize = 0;
        while i < n
            invariant
                n == self@.len(),
                i <= n,
                forall|j: int|
                    0 <= j < i ==> !(#[trigger] self@[j].email == email@ && self@[j].community_id
                        != community_id@),
            decreases n - i,
        {
            if str_eq(self.records[i].email.as_str(), email) && !str_eq(
                self.records[i].community_id.as_str(),
                community_id,
            ) {
                proof {
                    assert(self@[i as int].email == email@ && self@[i as int].community_id
                        != community_id@);
                }
                return true;
            }
            i += 1;
        }
        false
    }

    /// Deletes the record carrying this community id, if any; afterwards
    /// no record carries it.
    pub fn delete_by_community_id(&mut self, community_id: &str)
        requires
            old(self).wf(),
        ensures
            final(self).wf(),
            !contains_community_id(final(self)@, community_id@),
            !contains_community_id(old(self)@, community_id@) ==> final(self)@ == old(self)@,
            contains_community_id(old(self)@, community_id@) ==> exists|i: int|
                0 <= i < old(self)@.len() && #[trigger] old(self)@[i].community_id == community_id@
                    && final(self)@ == old(self)@.remove(i),
    {
        match self.index_of_community_id(community_id) {
            None => {},
            Some(i) => {
                let ghost pre = self@;
                self.records.remove(i);
                proof {
                    assert(self@ =~= pre.remove(i as int));
                    pre.remove_ensures(i as int);
                    assert forall|j: int| 0 <= j < self@.len() implies self@[j] == pre[(if j < i {
                        j
                    } else {
                        j + 1
                    })] by {
                        assert(self@[j] == pre.remove(i as int)[j]);
                    }
                    assert forall|a: int, b: int| 0 <= a < b
                        < self@.len() implies #[trigger] self@[a].email
                        != #[trigger] self@[b].email by {
                        let a0: int = if a < i { a } else { a + 1 };
                        let b0: int = if b < i { b } else { b + 1 };
                        assert(pre[a0].email != pre[b0].email);
                    }
                    assert forall|a: int, b: int| 0 <= a < b
                        < self@.len() implies #[trigger] self@[a].id != #[trigger] self@[b].id by {
                        let a0: int = if a < i { a } else { a + 1 };
                        let b0: int = if b < i { b } else { b + 1 };
                        assert(pre[a0].id != pre[b0].id);
                    }
                    assert forall|a: int, b: int| 0 <= a < b
                        < self@.len() implies #[trigger] self@[a].community_id
                        != #[trigger] self@[b].community_id by {
                        let a0: int = if a < i { a } else { a + 1 };
                        let b0: int = if b < i { b } else { b + 1 };
                        assert(pre[a0].community_id != pre[b0].community_id);
                    }
                    assert forall|j: int| 0 <= j
                        < self@.len() implies #[trigger] self@[j].community_id != community_id@ by {
                        let j0: int = if j < i { j } else { j + 1 };
                        assert(self@[j] == pre[j0]);
                        if j0 < i {
                            assert(pre[j0].community_id != pre[i as int].community_id);
                        }
                        if j0 > i {
                            assert(pre[i as int].community_id != pre[j0].community_id);
                        }
                    }
                }
            },
        }
    }
}

/// Two record sequences of the same length whose records carry the same
/// keys position by position are unique together.
proof fn lemma_same_keys_unique(a: Seq<AuthView>, b: Seq<AuthView>)
    requires
        records_unique(a),
        a.len() == b.len(),
        forall|i: int| 0 <= i < a.len() ==> #[trigger] b[i].email == a[i].email,
        forall|i: int| 0 <= i < a.len() ==> #[trigger] b[i].id == a[i].id,
        forall|i: int| 0 <= i < a.len() ==> #[trigger] b[i].community_id == a[i].community_id,
    ensures
        records_unique(b),
{
    assert forall|i: int, j: int| 0 <= i < j < b.len() implies #[trigger] b[i].email
        != #[trigger] b[j].email by {
        assert(a[i].email != a[j].email);
    }
    assert forall|i: int, j: int| 0 <= i < j < b.len() implies #[trigger] b[i].id
        != #[trigger] b[j].id by {
        assert(a[i].id != a[j].id);
    }
    assert forall|i: int, j: int| 0 <= i < j < b.len() implies #[trigger] b[i].community_id
        != #[trigger] b[j].community_id by {
        assert(a[i].community_id != a[j].community_id);
    }
}

/// Relies on `str::eq` (string slice comparison): equality of the two
/// character sequences.
#[verifier::external_body]
pub(crate) fn str_eq(a: &str, b: &str) -> (r: bool)
    ensures
        r == (a@ == b@),
{
    a == b
}

} // verus!
