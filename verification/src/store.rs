//! The profile projection: a keyed, current-state view of all members.
//!
//! The store offers point lookup, full-record upsert, and a count used
//! only to detect the very first registration (the bootstrap endowment).
//! Its mathematical value is a map from member id to profile value.
//! The store also carries the two configurable policy switches the
//! validation rules consult.

use vstd::prelude::*;
use vstd::pervasive::VecAdditionalExecFns;
use crate::profile::{Profile, ProfileView, BOOTSTRAP_AMOUNT, STARTING_CREDIT};

verus! {

/// Whether a dishonor may drive a credit balance below zero.
#[derive(Clone, Copy, PartialEq, Eq, Structural)]
pub enum OverdraftPolicy {
    /// A balance may go negative (the default).
    Allow,
    /// A dishonor that would make the balance negative is rejected.
    Reject,
}

/// Who may issue jail and unjail commands.
#[derive(Clone, Copy, PartialEq, Eq, Structural)]
pub enum JailPolicy {
    /// Any existing member may (the default).
    Anyone,
    /// Only members holding the party role may.
    PartyOnly,
}

/// The map value of a profile list: later entries win, though a
/// well-formed store never repeats a member id.
pub open spec fn profiles_map(s: Seq<Profile>) -> Map<u64, ProfileView>
    decreases s.len(),
{
    if s.len() == 0 {
        Map::empty()
    } else {
        profiles_map(s.drop_last()).insert(s.last().user_id, s.last()@)
    }
}

pub struct Store {
    profiles: Vec<Profile>,
    overdraft_policy: OverdraftPolicy,
    jail_policy: JailPolicy,
}

impl View for Store {
    type V = Map<u64, ProfileView>;

    closed spec fn view(&self) -> Map<u64, ProfileView> {
        profiles_map(self.profiles@)
    }
}

/// No member id occurs twice.
spec fn distinct_ids(s: Seq<Profile>) -> bool {
    forall|i: int, j: int|
        0 <= i < j < s.len() ==> #[trigger] s[i].user_id != #[trigger] s[j].user_id
}

proof fn lemma_profiles_map(s: Seq<Profile>)
    requires
        distinct_ids(s),
    ensures
        profiles_map(s).dom().finite(),
        profiles_map(s).dom().len() == s.len(),
        forall|k: u64|
            profiles_map(s).contains_key(k) <==> exists|i: int|
                0 <= i < s.len() && (#[trigger] s[i]).user_id == k,
        forall|i: int|
            0 <= i < s.len() ==> profiles_map(s)[(#[trigger] s[i]).user_id] == s[i]@,
    decreases s.len(),
{
    if s.len() > 0 {
        let head = s.drop_last();
        assert(distinct_ids(head)) by {
            assert(forall|i: int| 0 <= i < head.len() ==> head[i] == s[i]);
        }
        lemma_profiles_map(head);
        assert(!profiles_map(head).contains_key(s.last().user_id)) by {
            if profiles_map(head).contains_key(s.last().user_id) {
                let i = choose|i: int|
                    0 <= i < head.len() && (#[trigger] head[i]).user_id == s.last().user_id;
                assert(s[i].user_id == s[s.len() - 1].user_id);
            }
        }
        assert forall|k: u64| profiles_map(s).contains_key(k) implies exists|i: int|
            0 <= i < s.len() && (#[trigger] s[i]).user_id == k by {
            if k == s.last().user_id {
                assert(s[s.len() - 1].user_id == k);
            } else {
                let i = choose|i: int|
                    0 <= i < head.len() && (#[trigger] head[i]).user_id == k;
                assert(s[i].user_id == k);
            }
        }
        assert forall|k: u64| (exists|i: int|
            0 <= i < s.len() && (#[trigger] s[i]).user_id == k) implies profiles_map(
            s,
        ).contains_key(k) by {
            let i = choose|i: int| 0 <= i < s.len() && (#[trigger] s[i]).user_id == k;
            if i < s.len() - 1 {
                assert(head[i] == s[i]);
                assert(profiles_map(head).contains_key(k));
            }
        }
        assert forall|i: int| 0 <= i < s.len() implies profiles_map(s)[(#[trigger] s[i]).user_id]
            == s[i]@ by {
            if i < s.len() - 1 {
                assert(head[i] == s[i]);
                assert(s[i].user_id != s.last().user_id);
            }
        }
    }
}

/// Updating the entry that holds a member id is insertion on the map value.
proof fn lemma_profiles_map_update(s: Seq<Profile>, i: int, p: Profile)
    requires
        distinct_ids(s),
        0 <= i < s.len(),
        p.user_id == s[i].user_id,
    ensures
        profiles_map(s.update(i, p)) =~= profiles_map(s).insert(p.user_id, p@),
        distinct_ids(s.update(i, p)),
    decreases s.len(),
{
    let t = s.update(i, p);
    assert(distinct_ids(t)) by {
        assert(forall|j: int| 0 <= j < t.len() ==> (#[trigger] t[j]).user_id == s[j].user_id);
    }
    if i == s.len() - 1 {
        assert(t.drop_last() =~= s.drop_last());
        assert(t.last() == p);
        assert(profiles_map(s.drop_last()).insert(s.last().user_id, s.last()@).insert(
            p.user_id,
            p@,
        ) =~= profiles_map(s.drop_last()).insert(p.user_id, p@));
    } else {
        let head = s.drop_last();
        assert(distinct_ids(head)) by {
            assert(forall|j: int| 0 <= j < head.len() ==> head[j] == s[j]);
        }
        lemma_profiles_map_update(head, i, p);
        assert(t.drop_last() =~= head.update(i, p));
        assert(t.last() == s.last());
        assert(p.user_id != s.last().user_id);
    }
}

impl Store {
    /// Every entry well-formed and every member id unique.
    pub closed spec fn wf(&self) -> bool {
        distinct_ids(self.profiles@) && (forall|i: int|
            0 <= i < self.profiles@.len() ==> (#[trigger] self.profiles@[i])@.wf())
    }

    pub closed spec fn spec_overdraft_policy(&self) -> OverdraftPolicy {
        self.overdraft_policy
    }

    pub closed spec fn spec_jail_policy(&self) -> JailPolicy {
        self.jail_policy
    }

    pub fn overdraft_policy(&self) -> (p: OverdraftPolicy)
        ensures
            p == self.spec_overdraft_policy(),
    {
        self.overdraft_policy
    }

    pub fn jail_policy(&self) -> (p: JailPolicy)
        ensures
            p == self.spec_jail_policy(),
    {
        self.jail_policy
    }

    /// An empty store under the default policies.
    pub fn new() -> (s: Store)
        ensures
            s@ == Map::<u64, ProfileView>::empty(),
            s.wf(),
            s.spec_overdraft_policy() == OverdraftPolicy::Allow,
            s.spec_jail_policy() == JailPolicy::Anyone,
    {
        Store {
            profiles: Vec::new(),
            overdraft_policy: OverdraftPolicy::Allow,
            jail_policy: JailPolicy::Anyone,
        }
    }

    /// An empty store under chosen policies.
    pub fn with_policies(overdraft_policy: OverdraftPolicy, jail_policy: JailPolicy) -> (s: Store)
        ensures
            s@ == Map::<u64, ProfileView>::empty(),
            s.wf(),
            s.spec_overdraft_policy() == overdraft_policy,
            s.spec_jail_policy() == jail_policy,
    {
        Store { profiles: Vec::new(), overdraft_policy, jail_policy }
    }

    /// How many profiles exist; zero exactly until the first registration.
    pub fn profile_count(&self) -> (n: usize)
        requires
            self.wf(),
        ensures
            n == self@.dom().len(),
    {
        proof {
            lemma_profiles_map(self.profiles@);
        }
        self.profiles.len()
    }

    /// Point lookup by member id; no side effect.
    pub fn load_profile(&self, user_id: u64) -> (r: Option<Profile>)
        requires
            self.wf(),
        ensures
            match r {
                Some(p) => self@.contains_key(user_id) && p@ == self@[user_id] && p@.wf()
                    && p.user_id == user_id,
                None => !self@.contains_key(user_id),
            },
    {
        proof {
            lemma_profiles_map(self.profiles@);
        }
        let len = self.profiles.len();
        let mut i: usize = 0;
        while i < len
            invariant
                0 <= i <= len,
                len == self.profiles@.len(),
                self.wf(),
                forall|j: int| 0 <= j < i ==> (#[trigger] self.profiles@[j]).user_id != user_id,
            decreases len - i,
        {
            if self.profiles[i].user_id == user_id {
                let p = self.profiles[i].duplicate();
                proof {
                    lemma_profiles_map(self.profiles@);
                }
                return Some(p);
            }
            i = i + 1;
        }
        proof {
            if self@.contains_key(user_id) {
                let j = choose|j: int|
                    0 <= j < self.profiles@.len() && (#[trigger] self.profiles@[j]).user_id
                        == user_id;
                assert(self.profiles@[j].user_id != user_id);
            }
        }
        None
    }

    /// Full-record upsert keyed by the profile's member id.
    pub fn store_profile(&mut self, profile: &Profile)
        requires
            old(self).wf(),
            profile@.wf(),
        ensures
            final(self).wf(),
            final(self)@ == old(self)@.insert(profile.user_id, profile@),
            final(self).spec_overdraft_policy() == old(self).spec_overdraft_policy(),
            final(self).spec_jail_policy() == old(self).spec_jail_policy(),
    {
        let len = self.profiles.len();
        let mut i: usize = 0;
        while i < len
            invariant
                0 <= i <= len,
                len == self.profiles@.len(),
                self == old(self),
                self.wf(),
                profile@.wf(),
                forall|j: int|
                    0 <= j < i ==> (#[trigger] self.profiles@[j]).user_id != profile.user_id,
            decreases len - i,
        {
            if self.profiles[i].user_id == profile.user_id {
                let dup = profile.duplicate();
                proof {
                    lemma_profiles_map_update(self.profiles@, i as int, dup);
                }
                let ghost before = self.profiles@;
                self.profiles.set(i, dup);
                proof {
                    assert(self@ =~= old(self)@.insert(profile.user_id, profile@));
                    assert forall|j: int| 0 <= j < self.profiles@.len() implies (
                    #[trigger] self.profiles@[j])@.wf() by {
                        if j != i {
                            assert(self.profiles@[j] == before[j]);
                        } else {
                            assert(self.profiles@[j] == dup);
                            assert(dup@ == profile@);
                        }
                    }
                }
                return ;
            }
            i = i + 1;
        }
        let dup = profile.duplicate();
        proof {
            let s = self.profiles@;
            assert(s.push(dup).drop_last() =~= s);
            assert(distinct_ids(s.push(dup))) by {
                assert(forall|j: int| 0 <= j < s.len() ==> s.push(dup)[j] == s[j]);
                assert(s.push(dup)[s.len() as int] == dup);
            }
        }
        let ghost before = self.profiles@;
        self.profiles.push(dup);
        proof {
            assert(self.profiles@.drop_last() =~= old(self).profiles@);
            assert(self@ =~= old(self)@.insert(profile.user_id, profile@));
            assert forall|j: int| 0 <= j < self.profiles@.len() implies (
            #[trigger] self.profiles@[j])@.wf() by {
                if j < before.len() {
                    assert(self.profiles@[j] == before[j]);
                } else {
                    assert(self.profiles@[j] == dup);
                }
            }
        }
    }

    /// Creates the profile for a new member: starting credit, the currency
    /// endowment exactly when no profile existed before, no roles yet, both
    /// timestamps at `now`.
    pub fn register(&mut self, user_id: u64, discord_username: String, now: u64) -> (p: Profile)
        requires
            old(self).wf(),
            !old(self)@.contains_key(user_id),
        ensures
            p@ == (ProfileView {
                user_id,
                discord_username: discord_username@,
                display_name: discord_username@,
                created: now,
                last_seen: now,
                roles: Seq::empty(),
                credit: STARTING_CREDIT as int,
                yuan: if old(self)@.dom().len() == 0 {
                    BOOTSTRAP_AMOUNT
                } else {
                    0
                },
                hsk: None,
            }),
            p@.wf(),
            final(self).wf(),
            final(self)@ == old(self)@.insert(user_id, p@),
            final(self).spec_overdraft_policy() == old(self).spec_overdraft_policy(),
            final(self).spec_jail_policy() == old(self).spec_jail_policy(),
    {
        let count = self.profile_count();
        let yuan: u64 = if count == 0 {
            BOOTSTRAP_AMOUNT
        } else {
            0
        };
        let display_name = discord_username.clone();
        let profile = Profile {
            user_id,
            discord_username,
            display_name,
            created: now,
            last_seen: now,
            roles: Vec::new(),
            credit: STARTING_CREDIT,
            yuan,
            hsk: None,
        };
        proof {
            assert(crate::roles::roles_view(profile.roles@) =~= Seq::<Seq<char>>::empty());
            assert(profile@.wf());
        }
        let p = profile.duplicate();
        self.store_profile(&profile);
        p
    }
}

} // verus!
