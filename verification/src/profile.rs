//! Profile store.
//!
//! Holds the user profiles of the community store, keyed by the same
//! subject (community) id that the credential store records.  A profile
//! is created as part of registration and deleted as part of account
//! deletion; ids and usernames are unique.

use vstd::prelude::*;

use crate::error::CommunityError;
use crate::store::str_eq;

verus! {

/// Mathematical model of one profile record.
pub ghost struct ProfileView {
    pub id: Seq<char>,
    pub username: Seq<char>,
    pub avatar: Seq<char>,
    pub likes: Seq<Seq<char>>,
}

/// A user profile record.
#[derive(Debug)]
pub struct UserProfile {
    pub id: String,
    pub username: String,
    pub avatar: String,
    pub likes: Vec<String>,
}

impl View for UserProfile {
    type V = ProfileView;

    open spec fn view(&self) -> ProfileView {
        ProfileView {
            id: self.id@,
            username: self.username@,
            avatar: self.avatar@,
            likes: self.likes.deep_view(),
        }
    }
}

impl UserProfile {
    /// Builds a profile from its fields.
    pub fn new(id: String, username: String, avatar: String, likes: Vec<String>) -> (r:
        UserProfile)
        ensures
            r@.id == id@,
            r@.username == username@,
            r@.avatar == avatar@,
            r@.likes == likes.deep_view(),
    {
        UserProfile { id, username, avatar, likes }
    }
}

/// The avatar address derived from a profile id.
pub open spec fn avatar_of(id: Seq<char>) -> Seq<char> {
    "https://api.multiavatar.com/$"@ + id + ".svg"@
}

/// Some profile carries this id.
pub open spec fn contains_profile_id(s: Seq<ProfileView>, id: Seq<char>) -> bool {
    exists|i: int| 0 <= i < s.len() && #[trigger] s[i].id == id
}

/// Some profile carries this username.
pub open spec fn contains_username(s: Seq<ProfileView>, username: Seq<char>) -> bool {
    exists|i: int| 0 <= i < s.len() && #[trigger] s[i].username == username
}

/// Ids and usernames are pairwise distinct across profiles.
pub open spec fn profiles_unique(s: Seq<ProfileView>) -> bool {
    &&& forall|i: int, j: int| 0 <= i < j < s.len() ==> #[trigger] s[i].id != #[trigger] s[j].id
    &&& forall|i: int, j: int|
        0 <= i < j < s.len() ==> #[trigger] s[i].username != #[trigger] s[j].username
}

/// The in-memory profile store.
pub struct ProfileStore {
    profiles: Vec<UserProfile>,
}

impl View for ProfileStore {
    type V = Seq<ProfileView>;

    closed spec fn view(&self) -> Seq<ProfileView> {
        self.profiles@.map_values(|p: UserProfile| p@)
    }
}

impl ProfileStore {
    /// The store invariant: profile keys are unique.
    pub open spec fn wf(&self) -> bool {
        profiles_unique(self@)
    }

    /// An empty store.
    pub fn new() -> (r: ProfileStore)
        ensures
            r@ == Seq::<ProfileView>::empty(),
            r.wf(),
    {
        let r = ProfileStore { profiles: Vec::new() };
        proof {
            assert(r@ =~= Seq::<ProfileView>::empty());
        }
        r
    }

    /// The number of profiles held.
    pub fn len(&self) -> (r: usize)
        ensures
            r == self@.len(),
    {
        self.profiles.len()
    }

    /// Read access to the profile at an index.
    pub fn profile_at(&self, i: usize) -> (r: &UserProfile)
        requires
            i < self@.len(),
        ensures
            r@ == self@[i as int],
    {
        &self.profiles[i]
    }

    /// Existence check by id or username.
    #[verifier::loop_isolation(false)]
    pub fn does_profile_exist(&self, id: &str, username: &str) -> (r: bool)
        ensures
            r == (contains_profile_id(self@, id@) || contains_username(self@, username@)),
    {
        let n = self.profiles.len();
        let mut i: usize = 0;
        while i < n
            invariant
                n == self@.len(),
                i <= n,
                forall|j: int| 0 <= j < i ==> #[trigger] self@[j].id != id@,
                forall|j: int| 0 <= j < i ==> #[trigger] self@[j].username != username@,
            decreases n - i,
        {
            if str_eq(self.profiles[i].id.as_str(), id) {
                proof {
                    assert(self@[i as int].id == id@);
                }
                return true;
            }
            if str_eq(self.profiles[i].username.as_str(), username) {
                proof {
                    assert(self@[i as int].username == username@);
                }
                return true;
            }
            i += 1;
        }
        false
    }

    /// The index of the profile carrying this id, if any.
    #[verifier::loop_isolation(false)]
    pub fn index_of_id(&self, id: &str) -> (r: Option<usize>)
        ensures
            r is Some <==> contains_profile_id(self@, id@),
            r matches Some(i) ==> i < self@.len() && self@[i as int].id == id@,
    {
        let n = self.profiles.len();
        let mut i: usize = 0;
        while i < n
            invariant
                n == self@.len(),
                i <= n,
                forall|j: int| 0 <= j < i ==> #[trigger] self@[j].id != id@,
            decreases n - i,
        {
            if str_eq(self.profiles[i].id.as_str(), id) {
                proof {
                    assert(self@[i as int].id == id@);
                }
                return Some(i);
            }
            i += 1;
        }
        None
    }

    /// Creates the profile keyed by `id`, with a derived avatar address
    /// and no likes.  Fails exactly when a profile already carries the
    /// id or the username, and then changes nothing.
    pub fn register(&mut self, id: String, username: String) -> (r: Result<
        UserProfile,
        CommunityError,
    >)
        requires
            old(self).wf(),
        ensures
            final(self).wf(),
            r is Ok <==> !(contains_profile_id(old(self)@, id@) || contains_username(
                old(self)@,
                username@,
            )),
            r matches Ok(p) ==> p@ == (ProfileView {
                id: id@,
                username: username@,
                avatar: avatar_of(id@),
                likes: Seq::<Seq<char>>::empty(),
            }) && final(self)@ == old(self)@.push(p@),
            r matches Err(e) ==> e == CommunityError::DuplicateProfile && final(self)@ == old(
                self,
            )@,
    {
        if self.does_profile_exist(id.as_str(), username.as_str()) {
            return Err(CommunityError::DuplicateProfile);
        }
        let avatar = String::from_str("https://api.multiavatar.com/$").concat(id.as_str()).concat(
            ".svg",
        );
        let stored = UserProfile::new(
            String::from_str(id.as_str()),
            String::from_str(username.as_str()),
            String::from_str(avatar.as_str()),
            Vec::new(),
        );
        let returned = UserProfile::new(id, username, avatar, Vec::new());
        let ghost pre = self@;
        proof {
            assert(stored@.likes =~= Seq::<Seq<char>>::empty());
            assert(returned@.likes =~= Seq::<Seq<char>>::empty());
            assert(stored@ == returned@);
        }
        self.profiles.push(stored);
        proof {
            assert(self@ =~= pre.push(returned@));
            assert forall|i: int, j: int| 0 <= i < j < self@.len() implies #[trigger] self@[i].id
                != #[trigger] self@[j].id by {
                if j == self@.len() - 1 {
                    assert(self@[i] == pre[i]);
                }
            }
            assert forall|i: int, j: int| 0 <= i < j
                < self@.len() implies #[trigger] self@[i].username
                != #[trigger] self@[j].username by {
                if j == self@.len() - 1 {
                    assert(self@[i] == pre[i]);
                }
            }
        }
        Ok(returned)
    }

    /// Read access to the profile carrying this id.
    pub fn get_by_id(&self, id: &str) -> (r: Option<&UserProfile>)
        ensures
            r is Some <==> contains_profile_id(self@, id@),
            r matches Some(p) ==> p@.id == id@ && exists|i: int|
                0 <= i < self@.len() && #[trigger] self@[i] == p@,
    {
        match self.index_of_id(id) {
            Some(i) => {
                let p = &self.profiles[i];
                proof {
                    assert(self@[i as int] == p@);
                }
                Some(p)
            },
            None => None,
        }
    }

    /// Deletes the profile carrying this id, if any; afterwards no
    /// profile carries it.  Deleting an absent profile is not an error.
    pub fn delete(&mut self, id: &str) -> (r: bool)
        requires
            old(self).wf(),
        ensures
            final(self).wf(),
            r,
            !contains_profile_id(final(self)@, id@),
            !contains_profile_id(old(self)@, id@) ==> final(self)@ == old(self)@,
            contains_profile_id(old(self)@, id@) ==> exists|i: int|
                0 <= i < old(self)@.len() && #[trigger] old(self)@[i].id == id@ && final(self)@
                    == old(self)@.remove(i),
    {
        match self.index_of_id(id) {
            None => true,
            Some(i) => {
                let ghost pre = self@;
                self.profiles.remove(i);
                proof {
                    assert(self@ =~= pre.remove(i as int));
                    pre.remove_ensures(i as int);
                    assert forall|j: int| 0 <= j < self@.len() implies self@[j] == pre[(if j < i {
                        j
                    } else {
                        j + 1
                    })] by {
                        assert(self@[j] == pre.remove(i as int)[j]);
                    }
                    assert forall|a: int, b: int| 0 <= a < b
                        < self@.len() implies #[trigger] self@[a].id != #[trigger] self@[b].id by {
                        let a0: int = if a < i { a } else { a + 1 };
                        let b0: int = if b < i { b } else { b + 1 };
                        assert(pre[a0].id != pre[b0].id);
                    }
                    assert forall|a: int, b: int| 0 <= a < b
                        < self@.len() implies #[trigger] self@[a].username
                        != #[trigger] self@[b].username by {
                        let a0: int = if a < i { a } else { a + 1 };
                        let b0: int = if b < i { b } else { b + 1 };
                        assert(pre[a0].username != pre[b0].username);
                    }
                    assert forall|j: int| 0 <= j < self@.len() implies #[trigger] self@[j].id
                        != id@ by {
                        let j0: int = if j < i { j } else { j + 1 };
                        assert(self@[j] == pre[j0]);
                        if j0 < i {
                            assert(pre[j0].id != pre[i as int].id);
                        }
                        if j0 > i {
                            assert(pre[i as int].id != pre[j0].id);
                        }
                    }
                }
                true
            },
        }
    }
}

} // verus!
