//! Anonymous users: guests who join a call by its link, known by a generated
//! name, kept in a registry keyed by their id.

use vstd::prelude::*;

use crate::text::{lowercase, spec_lowercase, str_equal};

verus! {

/// The profile of an anonymous user.
pub struct AnonymousProfile {
    pub user_id: u64,
    pub user_name: String,
    pub display_name: String,
    pub avatar: String,
}

/// The content of an anonymous user's profile.
pub struct AnonymousView {
    pub user_id: u64,
    pub user_name: Seq<char>,
    pub display_name: Seq<char>,
    pub avatar: Seq<char>,
}

/// The view of a profile.
pub open spec fn profile_view(p: AnonymousProfile) -> AnonymousView {
    AnonymousView {
        user_id: p.user_id,
        user_name: p.user_name@,
        display_name: p.display_name@,
        avatar: p.avatar@,
    }
}

impl AnonymousProfile {
    /// The profile of a new guest with a generated name: the name in
    /// lowercase is its user name, the name as given its display name, and it
    /// has no avatar.
    pub fn new(user_id: u64, username: String) -> (r: AnonymousProfile)
        ensures
            profile_view(r) == (AnonymousView {
                user_id,
                user_name: spec_lowercase(username@),
                display_name: username@,
                avatar: Seq::empty(),
            }),
    {
        let user_name = lowercase(username.as_str());
        AnonymousProfile { user_id, user_name, display_name: username, avatar: String::new() }
    }

    /// The guest's id.
    pub fn get_user_id(&self) -> (r: u64)
        ensures
            r == self.user_id,
    {
        self.user_id
    }

    /// The guest's user name.
    pub fn get_user_name(&self) -> (r: String)
        ensures
            r@ == self.user_name@,
    {
        self.user_name.clone()
    }

    /// The guest's display name.
    pub fn get_display_name(&self) -> (r: String)
        ensures
            r@ == self.display_name@,
    {
        self.display_name.clone()
    }

    /// Changes the guest's display name.
    pub fn set_display_name(&mut self, display: String)
        ensures
            profile_view(*final(self)) == (AnonymousView { display_name: display@, ..profile_view(*old(self)) }),
    {
        self.display_name = display;
    }

    /// The guest's avatar.
    pub fn get_avatar(&self) -> (r: String)
        ensures
            r@ == self.avatar@,
    {
        self.avatar.clone()
    }
}

/// The connected guests, at most one profile per id.
pub struct AnonymousManager {
    users: Vec<AnonymousProfile>,
}

/// The index of a guest's profile, searching from `i`.
pub open spec fn guest_index_from(us: Seq<AnonymousView>, user_id: u64, i: nat) -> Option<nat>
    decreases us.len() - i,
{
    if i >= us.len() {
        None
    } else if us[i as int].user_id == user_id {
        Some(i)
    } else {
        guest_index_from(us, user_id, i + 1)
    }
}

/// The index of the first guest with a user name, searching from `i`.
pub open spec fn name_index_from(us: Seq<AnonymousView>, name: Seq<char>, i: nat) -> Option<nat>
    decreases us.len() - i,
{
    if i >= us.len() {
        None
    } else if us[i as int].user_name == name {
        Some(i)
    } else {
        name_index_from(us, name, i + 1)
    }
}

/// No two profiles share an id.
pub open spec fn distinct_guests(us: Seq<AnonymousView>) -> bool {
    forall|i: int, j: int| 0 <= i < j < us.len() ==> us[i].user_id != us[j].user_id
}

/// The first index found has the id, and no earlier profile has it.
pub proof fn lemma_guest_index_from(us: Seq<AnonymousView>, user_id: u64, i: nat)
    ensures
        guest_index_from(us, user_id, i) matches Some(j) ==> i <= j < us.len()
            && us[j as int].user_id == user_id,
        guest_index_from(us, user_id, i) is None ==> forall|m: int|
            i <= m < us.len() ==> us[m].user_id != user_id,
    decreases us.len() - i,
{
    if i < us.len() {
        lemma_guest_index_from(us, user_id, i + 1);
    }
}

/// The registry after adding a profile: it replaces the one with the same id,
/// or is appended.
pub open spec fn spec_add_guest(us: Seq<AnonymousView>, p: AnonymousView) -> Seq<AnonymousView> {
    match guest_index_from(us, p.user_id, 0) {
        Some(i) => us.update(i as int, p),
        None => us.push(p),
    }
}

impl View for AnonymousManager {
    type V = Seq<AnonymousView>;

    closed spec fn view(&self) -> Seq<AnonymousView> {
        self.users@.map_values(|p: AnonymousProfile| profile_view(p))
    }
}

impl AnonymousManager {
    /// No two profiles share an id.
    pub open spec fn wf(&self) -> bool {
        distinct_guests(self@)
    }

    /// A registry without guests.
    pub fn new() -> (r: AnonymousManager)
        ensures
            r.wf(),
            r@ == Seq::<AnonymousView>::empty(),
    {
        let r = AnonymousManager { users: Vec::new() };
        assert(r@ =~= Seq::empty());
        r
    }

    fn index_of(&self, user_id: u64) -> (r: Option<usize>)
        ensures
            self@.len() == self.users.len(),
            r matches Some(i) ==> guest_index_from(self@, user_id, 0) == Some(i as nat) && i
                < self.users.len(),
            r is None ==> guest_index_from(self@, user_id, 0) is None,
    {
        let mut i: usize = 0;
        while i < self.users.len()
            invariant
                i <= self.users.len(),
                self@.len() == self.users.len(),
                guest_index_from(self@, user_id, 0) == guest_index_from(self@, user_id, i as nat),
            decreases self.users.len() - i,
        {
            if self.users[i].user_id == user_id {
                return Some(i);
            }
            i = i + 1;
        }
        None
    }

    /// Adds a guest, replacing the profile with the same id.
    pub fn add_anonymous_user(&mut self, profile: AnonymousProfile)
        requires
            old(self).wf(),
        ensures
            final(self).wf(),
            final(self)@ == spec_add_guest(old(self)@, profile_view(profile)),
    {
        let ghost v = profile_view(profile);
        proof {
            lemma_guest_index_from(self@, v.user_id, 0);
        }
        match self.index_of(profile.user_id) {
            Some(i) => {
                let ghost before = self@;
                self.users.set(i, profile);
                proof {
                    assert(self@ =~= before.update(i as int, v));
                    assert forall|a: int, b: int| 0 <= a < b < self@.len() implies self@[a].user_id
                        != self@[b].user_id by {
                        assert(self@[a].user_id == before[a].user_id);
                        assert(self@[b].user_id == before[b].user_id);
                    }
                }
            },
            None => {
                let ghost before = self@;
                self.users.push(profile);
                proof {
                    assert(self@ =~= before.push(v));
                }
            },
        }
    }

    /// Removes a guest.
    pub fn remove_anonymous_user(&mut self, user_id: u64)
        requires
            old(self).wf(),
        ensures
            final(self).wf(),
            guest_index_from(old(self)@, user_id, 0) matches Some(i) ==> final(self)@ == old(
                self,
            )@.remove(i as int),
            guest_index_from(old(self)@, user_id, 0) is None ==> final(self)@ == old(self)@,
            guest_index_from(final(self)@, user_id, 0) is None,
    {
        proof {
            lemma_guest_index_from(self@, user_id, 0);
        }
        match self.index_of(user_id) {
            Some(i) => {
                let ghost before = self@;
                self.users.remove(i);
                proof {
                    assert(self@ =~= before.remove(i as int));
                    assert forall|a: int, b: int| 0 <= a < b < self@.len() implies self@[a].user_id
                        != self@[b].user_id by {
                        let a0 = if a < i { a } else { a + 1 };
                        let b0 = if b < i { b } else { b + 1 };
                        assert(self@[a] == before[a0]);
                        assert(self@[b] == before[b0]);
                    }
                    assert forall|m: int| 0 <= m < self@.len() implies self@[m].user_id != user_id by {
                        let m0 = if m < i { m } else { m + 1 };
                        assert(self@[m] == before[m0]);
                    }
                    lemma_guest_index_from(self@, user_id, 0);
                }
            },
            None => {},
        }
    }

    /// A guest's profile.
    pub fn get_anonymous_user(&self, user_id: u64) -> (r: Option<&AnonymousProfile>)
        ensures
            r is Some == guest_index_from(self@, user_id, 0) is Some,
            r matches Some(p) ==> profile_view(*p) == self@[guest_index_from(self@, user_id, 0)->0 as int],
    {
        match self.index_of(user_id) {
            Some(i) => Some(&self.users[i]),
            None => None,
        }
    }

    /// The first guest with a user name.
    pub fn get_anonymous_user_by_name(&self, username: &str) -> (r: Option<&AnonymousProfile>)
        ensures
            r is Some == name_index_from(self@, username@, 0) is Some,
            r matches Some(p) ==> profile_view(*p) == self@[name_index_from(self@, username@, 0)->0 as int],
    {
        let mut i: usize = 0;
        while i < self.users.len()
            invariant
                i <= self.users.len(),
                self@.len() == self.users.len(),
                name_index_from(self@, username@, 0) == name_index_from(self@, username@, i as nat),
            decreases self.users.len() - i,
        {
            assert(self@[i as int] == profile_view(self.users@[i as int]));
            if str_equal(self.users[i].user_name.as_str(), username) {
                return Some(&self.users[i]);
            }
            i = i + 1;
        }
        None
    }

    /// Changes a guest's display name; `false` where the guest is unknown.
    pub fn set_display_name(&mut self, user_id: u64, display: String) -> (r: bool)
        requires
            old(self).wf(),
        ensures
            final(self).wf(),
            r == guest_index_from(old(self)@, user_id, 0) is Some,
            !r ==> final(self)@ == old(self)@,
            r ==> ({
                let i = guest_index_from(old(self)@, user_id, 0)->0 as int;
                final(self)@ == old(self)@.update(i, AnonymousView { display_name: display@, ..old(self)@[i] })
            }),
    {
        match self.index_of(user_id) {
            Some(i) => {
                let ghost before = self@;
                let ghost d = display@;
                let mut p = self.users.remove(i);
                p.set_display_name(display);
                self.users.insert(i, p);
                proof {
                    assert(self@ =~= before.update(i as int, AnonymousView { display_name: d, ..before[i as int] }));
                    assert forall|a: int, b: int| 0 <= a < b < self@.len() implies self@[a].user_id
                        != self@[b].user_id by {
                        assert(self@[a].user_id == before[a].user_id);
                        assert(self@[b].user_id == before[b].user_id);
                    }
                }
                true
            },
            None => false,
        }
    }
}

} // verus!
