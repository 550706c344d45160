//! The permission model and the principal store.
//!
//! Roles are ordered numeric levels; a principal's permission set is the set
//! of levels it was explicitly granted.  Authorization follows a seniority
//! rule: holding any level strictly above the required one is as good as
//! holding the required level itself, while a principal with no levels at all
//! is authorized for nothing.

use vstd::prelude::*;
use vstd::string::StringSliceAdditionalSpecFns;

verus! {

/// A role, identified by an ordered numeric authority level.
#[derive(Debug, Clone, Copy, Eq, PartialEq, Hash, Structural)]
pub enum Role {
    User,
    Admin,
}

/// The numeric level of a role: higher means more authority.
pub open spec fn spec_level(r: Role) -> u8 {
    match r {
        Role::User => 100,
        Role::Admin => 255,
    }
}

impl Role {
    /// The numeric level of this role.
    pub fn level(&self) -> (l: u8)
        ensures
            l == spec_level(*self),
    {
        match self {
            Role::User => 100,
            Role::Admin => 255,
        }
    }
}

/// An opaque principal identifier.
#[derive(Debug)]
pub struct UserId(pub String);

impl Clone for UserId {
    fn clone(&self) -> (r: Self)
        ensures
            r == *self,
    {
        UserId(self.0.clone())
    }
}

/// A registered principal: an identifier, the session-invalidation secret,
/// and the permission levels it was explicitly granted.
#[derive(Debug)]
pub struct User {
    pub id: UserId,
    pub pw_hash: Vec<u8>,
    pub roles: Vec<u8>,
}

/// The mathematical content of a principal.
pub ghost struct UserView {
    pub id: Seq<char>,
    pub pw_hash: Seq<u8>,
    pub roles: Seq<u8>,
}

impl View for User {
    type V = UserView;

    open spec fn view(&self) -> UserView {
        UserView { id: self.id.0@, pw_hash: self.pw_hash@, roles: self.roles@ }
    }
}

impl Clone for User {
    fn clone(&self) -> (r: Self)
        ensures
            r@ == self@,
    {
        User { id: self.id.clone(), pw_hash: self.pw_hash.clone(), roles: self.roles.clone() }
    }
}

impl User {
    /// The principal's identifier, as the session layer reads it.
    pub fn id(&self) -> (r: String)
        ensures
            r@ == self@.id,
    {
        self.id.0.clone()
    }

    /// The secret whose change invalidates the principal's sessions.
    pub fn session_auth_hash(&self) -> (r: &Vec<u8>)
        ensures
            r@ == self@.pw_hash,
    {
        &self.pw_hash
    }
}

/// The levels a principal was granted directly.
pub open spec fn user_permissions(u: UserView) -> Set<u8> {
    u.roles.to_set()
}

/// Group-derived levels; the store defines no groups, so none.
pub open spec fn group_permissions(u: UserView) -> Set<u8> {
    Set::empty()
}

/// A principal's effective permissions: granted levels plus group-derived ones.
pub open spec fn all_permissions(u: UserView) -> Set<u8> {
    user_permissions(u).union(group_permissions(u))
}

/// The core decision rule.  A permission set authorizes a required level when
/// the level itself is a member, or when some member lies strictly above it
/// (the seniority rule).  An empty set authorizes nothing.
pub open spec fn has_permission(perms: Set<u8>, required: u8) -> bool {
    perms.contains(required) || exists|p: u8| #[trigger] perms.contains(p) && p > required
}

/// `m` is the maximum of `perms`.
pub open spec fn is_max_of(perms: Set<u8>, m: u8) -> bool {
    perms.contains(m) && forall|p: u8| #[trigger] perms.contains(p) ==> p <= m
}

/// The decision rule in the form it is usually quoted: a required level is
/// authorized exactly when it is a member of the effective set or the set's
/// maximum lies strictly above it.
pub proof fn lemma_has_permission_via_max(perms: Set<u8>, required: u8, m: u8)
    requires
        is_max_of(perms, m),
    ensures
        has_permission(perms, required) <==> (perms.contains(required) || m > required),
{
    if m > required {
        assert(perms.contains(m) && m > required);
    }
    if has_permission(perms, required) && !perms.contains(required) {
        let p = choose|p: u8| #[trigger] perms.contains(p) && p > required;
        assert(p <= m);
    }
}

/// A principal with an empty permission set is unauthorized for every level.
pub proof fn lemma_empty_permissions_deny(required: u8)
    ensures
        !has_permission(Set::empty(), required),
{
    assert(forall|p: u8| !(#[trigger] Set::<u8>::empty().contains(p)));
}

/// The error channel of registration; no input makes the store use it.
#[derive(Debug, Clone, Copy, PartialEq, Eq, Structural)]
pub struct StoreError;

/// The principal store: a mapping from identifier to principal with unique
/// keys, populated by registration before request serving begins.
#[derive(Debug)]
pub struct Backend {
    users: Vec<User>,
}

impl View for Backend {
    type V = Map<Seq<char>, UserView>;

    closed spec fn view(&self) -> Map<Seq<char>, UserView> {
        user_map(self.users@)
    }
}

/// The mapping a sequence of principals stands for; later entries shadow
/// earlier ones with the same identifier.
spec fn user_map(s: Seq<User>) -> Map<Seq<char>, UserView>
    decreases s.len(),
{
    if s.len() == 0 {
        Map::empty()
    } else {
        user_map(s.drop_last()).insert(s.last()@.id, s.last()@)
    }
}

/// No two stored principals share an identifier.
spec fn ids_unique(s: Seq<User>) -> bool {
    forall|i: int, j: int| 0 <= i < j < s.len() ==> s[i]@.id != s[j]@.id
}

proof fn lemma_user_map_contains(s: Seq<User>, k: Seq<char>)
    ensures
        user_map(s).contains_key(k) <==> exists|i: int| 0 <= i < s.len() && s[i]@.id == k,
    decreases s.len(),
{
    if s.len() > 0 {
        lemma_user_map_contains(s.drop_last(), k);
        if s.last()@.id == k {
            assert(s[s.len() - 1]@.id == k);
        } else if user_map(s).contains_key(k) {
            let i = choose|i: int| 0 <= i < s.drop_last().len() && s.drop_last()[i]@.id == k;
            assert(s[i]@.id == k);
        } else {
            assert forall|i: int| 0 <= i < s.len() implies s[i]@.id != k by {
                if i < s.len() - 1 {
                    assert(s.drop_last()[i]@.id != k);
                }
            }
        }
    }
}

proof fn lemma_user_map_get(s: Seq<User>, i: int)
    requires
        ids_unique(s),
        0 <= i < s.len(),
    ensures
        user_map(s).contains_key(s[i]@.id),
        user_map(s)[s[i]@.id] == s[i]@,
    decreases s.len(),
{
    if i == s.len() - 1 {
        assert(s.last() == s[i]);
    } else {
        assert(ids_unique(s.drop_last())) by {
            assert forall|a: int, b: int|
                0 <= a < b < s.drop_last().len() implies s.drop_last()[a]@.id
                != s.drop_last()[b]@.id by {
                assert(s[a]@.id != s[b]@.id);
            }
        }
        lemma_user_map_get(s.drop_last(), i);
        assert(s.drop_last()[i] == s[i]);
        assert(s[i]@.id != s.last()@.id);
    }
}

proof fn lemma_user_map_update(s: Seq<User>, i: int, u: User)
    requires
        ids_unique(s),
        0 <= i < s.len(),
        u@.id == s[i]@.id,
    ensures
        user_map(s.update(i, u)) == user_map(s).insert(u@.id, u@),
    decreases s.len(),
{
    let t = s.update(i, u);
    if i == s.len() - 1 {
        assert(t.drop_last() =~= s.drop_last());
        assert(t.last() == u);
        assert(user_map(t) == user_map(s.drop_last()).insert(u@.id, u@));
        assert(user_map(s.drop_last()).insert(u@.id, u@) =~= user_map(s).insert(u@.id, u@));
    } else {
        assert(ids_unique(s.drop_last())) by {
            assert forall|a: int, b: int|
                0 <= a < b < s.drop_last().len() implies s.drop_last()[a]@.id
                != s.drop_last()[b]@.id by {
                assert(s[a]@.id != s[b]@.id);
            }
        }
        assert(t.drop_last() =~= s.drop_last().update(i, u));
        assert(t.last() == s.last());
        assert(s.drop_last()[i] == s[i]);
        lemma_user_map_update(s.drop_last(), i, u);
        assert(u@.id != s.last()@.id) by {
            assert(s[i]@.id != s[s.len() - 1]@.id);
        }
        assert(user_map(s.drop_last()).insert(u@.id, u@).insert(s.last()@.id, s.last()@)
            =~= user_map(s.drop_last()).insert(s.last()@.id, s.last()@).insert(u@.id, u@));
    }
}

proof fn lemma_user_map_push(s: Seq<User>, u: User)
    ensures
        user_map(s.push(u)) == user_map(s).insert(u@.id, u@),
{
    assert(s.push(u).drop_last() =~= s);
    assert(s.push(u).last() == u);
}

proof fn lemma_user_map_congruent(s1: Seq<User>, s2: Seq<User>)
    requires
        s1.len() == s2.len(),
        forall|i: int| 0 <= i < s1.len() ==> s1[i]@ == s2[i]@,
    ensures
        user_map(s1) == user_map(s2),
    decreases s1.len(),
{
    if s1.len() > 0 {
        assert(forall|i: int|
            0 <= i < s1.drop_last().len() ==> s1.drop_last()[i]@ == s2.drop_last()[i]@);
        lemma_user_map_congruent(s1.drop_last(), s2.drop_last());
        assert(s1.last()@ == s2.last()@);
        assert(s1[s1.len() - 1]@ == s2[s2.len() - 1]@);
    }
}

impl Clone for Backend {
    fn clone(&self) -> (r: Self)
        ensures
            r@ == self@,
            r.wf() <==> self.wf(),
    {
        let users = self.users.clone();
        proof {
            assert forall|i: int| 0 <= i < self.users@.len() implies users@[i]@
                == self.users@[i]@ by {
                assert(vstd::pervasive::cloned(self.users@[i], users@[i]));
            }
            lemma_user_map_congruent(users@, self.users@);
            assert(ids_unique(users@) <==> ids_unique(self.users@));
        }
        Backend { users }
    }
}

impl Default for Backend {
    /// An empty store.
    fn default() -> (r: Self)
        ensures
            r@ == Map::<Seq<char>, UserView>::empty(),
            r.wf(),
    {
        Backend { users: Vec::new() }
    }
}

/// The index of the principal registered under `id`, if any.
fn position_of(users: &Vec<User>, id: &String) -> (r: Option<usize>)
    ensures
        match r {
            Some(i) => i < users@.len() && users@[i as int]@.id == id@,
            None => forall|j: int| 0 <= j < users@.len() ==> users@[j]@.id != id@,
        },
{
    let n = users.len();
    let mut i: usize = 0;
    while i < n
        invariant
            i <= n,
            n == users@.len(),
            forall|j: int| 0 <= j < i ==> users@[j]@.id != id@,
        decreases n - i,
    {
        if users[i].id.0 == *id {
            return Some(i);
        }
        i += 1;
    }
    None
}

impl Backend {
    /// Well-formedness: stored identifiers are unique.
    pub closed spec fn wf(self) -> bool {
        ids_unique(self.users@)
    }

    /// Registers (or re-registers) a principal.  The stored record for the
    /// identifier becomes exactly the given one: a prior record under the same
    /// identifier is replaced outright, with no union of old and new levels.
    /// Registration never fails.
    pub fn register_user(&mut self, new_user_id: &str, roles: &[u8]) -> (r: Result<(), StoreError>)
        requires
            old(self).wf(),
        ensures
            final(self).wf(),
            r is Ok,
            final(self)@ == old(self)@.insert(
                new_user_id@,
                (UserView { id: new_user_id@, pw_hash: new_user_id.spec_bytes(), roles: roles@ }),
            ),
    {
        let id = new_user_id.to_owned();
        let user = User {
            id: UserId(id),
            pw_hash: vstd::slice::slice_to_vec(new_user_id.as_bytes()),
            roles: vstd::slice::slice_to_vec(roles),
        };
        let ghost uv = UserView {
            id: new_user_id@,
            pw_hash: new_user_id.spec_bytes(),
            roles: roles@,
        };
        assert(user@ == uv);
        let key = user.id.0.clone();
        match position_of(&self.users, &key) {
            Some(i) => {
                proof {
                    lemma_user_map_update(self.users@, i as int, user);
                }
                let ghost prev = self.users@;
                self.users.set(i, user);
                proof {
                    assert(ids_unique(self.users@)) by {
                        assert forall|a: int, b: int|
                            0 <= a < b < self.users@.len() implies self.users@[a]@.id
                            != self.users@[b]@.id by {
                            if a != i && b != i {
                                assert(prev[a]@.id != prev[b]@.id);
                            } else if a == i {
                                assert(prev[a]@.id == uv.id);
                                assert(prev[a]@.id != prev[b]@.id);
                            } else {
                                assert(prev[b]@.id == uv.id);
                                assert(prev[a]@.id != prev[b]@.id);
                            }
                        }
                    }
                }
            },
            None => {
                proof {
                    lemma_user_map_push(self.users@, user);
                }
                let ghost prev = self.users@;
                self.users.push(user);
                proof {
                    assert(ids_unique(self.users@)) by {
                        assert forall|a: int, b: int|
                            0 <= a < b < self.users@.len() implies self.users@[a]@.id
                            != self.users@[b]@.id by {
                            if b < self.users@.len() - 1 {
                                assert(prev[a]@.id != prev[b]@.id);
                            } else {
                                assert(prev[a]@.id != uv.id);
                            }
                        }
                    }
                }
            },
        }
        Ok(())
    }

    /// Looks an identifier up; absence is a valid, non-error outcome.
    pub fn get_user(&self, user_id: &String) -> (r: Option<User>)
        requires
            self.wf(),
        ensures
            match r {
                Some(u) => self@.contains_key(user_id@) && u@ == self@[user_id@],
                None => !self@.contains_key(user_id@),
            },
    {
        proof {
            lemma_user_map_contains(self.users@, user_id@);
        }
        match position_of(&self.users, user_id) {
            Some(i) => {
                proof {
                    lemma_user_map_get(self.users@, i as int);
                }
                Some(self.users[i].clone())
            },
            None => None,
        }
    }

    /// Resolves credentials; they are accepted by identifier alone.
    pub fn authenticate(&self, credentials: UserId) -> (r: Option<User>)
        requires
            self.wf(),
        ensures
            match r {
                Some(u) => self@.contains_key(credentials.0@) && u@ == self@[credentials.0@],
                None => !self@.contains_key(credentials.0@),
            },
    {
        self.get_user(&credentials.0)
    }

    /// The levels the principal was granted directly.
    pub fn get_user_permissions(&self, user: &User) -> (perms: Vec<u8>)
        ensures
            perms@ == user@.roles,
            perms@.to_set() == user_permissions(user@),
    {
        let r = user.roles.clone();
        proof {
            assert(r@ =~= user.roles@) by {
                assert forall|i: int| 0 <= i < user.roles@.len() implies r@[i]
                    == user.roles@[i] by {
                    assert(vstd::pervasive::cloned(user.roles@[i], r@[i]));
                }
            }
        }
        r
    }

    /// Group-derived levels; the store defines no groups.
    pub fn get_group_permissions(&self, user: &User) -> (perms: Vec<u8>)
        ensures
            perms@ == Seq::<u8>::empty(),
            perms@.to_set() == group_permissions(user@),
    {
        let r: Vec<u8> = Vec::new();
        proof {
            assert(r@.to_set() =~= group_permissions(user@));
        }
        r
    }

    /// The principal's effective permissions.
    pub fn get_all_permissions(&self, user: &User) -> (perms: Vec<u8>)
        ensures
            perms@.to_set() == all_permissions(user@),
    {
        let mut all = self.get_user_permissions(user);
        let mut group = self.get_group_permissions(user);
        all.append(&mut group);
        proof {
            assert(all@ =~= user@.roles);
            assert(all@.to_set() =~= all_permissions(user@));
        }
        all
    }

    /// Decides authorization for the principal against a required level,
    /// by the seniority rule over its effective permissions.
    pub fn has_perm(&self, user: &User, perm: u8) -> (r: bool)
        ensures
            r == has_permission(all_permissions(user@), perm),
    {
        let perms = self.get_all_permissions(user);
        let n = perms.len();
        let mut i: usize = 0;
        let mut found = false;
        while i < n
            invariant
                i <= n,
                n == perms@.len(),
                found == exists|j: int| 0 <= j < i && perms@[j] >= perm,
            decreases n - i,
        {
            if perms[i] >= perm {
                found = true;
                assert(perms@[i as int] >= perm);
            }
            i += 1;
        }
        proof {
            let s = all_permissions(user@);
            if found {
                let j = choose|j: int| 0 <= j < perms@.len() && perms@[j] >= perm;
                assert(perms@.contains(perms@[j]));
                assert(s.contains(perms@[j]));
                if perms@[j] > perm {
                    assert(has_permission(s, perm));
                } else {
                    assert(perms@[j] == perm);
                }
            } else {
                if s.contains(perm) {
                    assert(perms@.contains(perm));
                    let j = choose|j: int| 0 <= j < perms@.len() && perms@[j] == perm;
                    assert(false);
                }
                if exists|p: u8| #[trigger] s.contains(p) && p > perm {
                    let p = choose|p: u8| #[trigger] s.contains(p) && p > perm;
                    assert(perms@.contains(p));
                    let j = choose|j: int| 0 <= j < perms@.len() && perms@[j] == p;
                    assert(false);
                }
            }
        }
        found
    }
}

/// Re-registering an identifier fully replaces the prior record: inserting
/// twice under one key leaves exactly the second record, with no trace of the
/// first.
pub proof fn lemma_reregistration_replaces(
    m: Map<Seq<char>, UserView>,
    id: Seq<char>,
    u1: UserView,
    u2: UserView,
)
    ensures
        m.insert(id, u1).insert(id, u2) == m.insert(id, u2),
        m.insert(id, u1).insert(id, u2)[id] == u2,
{
    assert(m.insert(id, u1).insert(id, u2) =~= m.insert(id, u2));
}

} // verus!
