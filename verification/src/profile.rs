//! The member profile: the aggregate that commands validate against and
//! mutate.  A profile carries two numeric balances (social credit and a
//! one-time currency endowment), a sorted list of role tags, and
//! presentation metadata.

use vstd::prelude::*;
use crate::roles::{
    insert_sorted, remove_first, roles_view, sorted_roles, vec_add_role, vec_has_role,
    vec_remove_role,
};

verus! {

/// Social credit given to every newly registered profile.
pub const STARTING_CREDIT: i64 = 1000;

/// Currency granted to the very first profile ever registered.
pub const BOOTSTRAP_AMOUNT: u64 = 10000;

/// Highest settable proficiency level.
pub const MAX_HSK_LEVEL: u8 = 6;

/// The role tag that marks a jailed member.
pub open spec fn jailed_role() -> Seq<char> {
    "Jailed"@
}

pub fn jailed_role_str() -> (s: &'static str)
    ensures
        s@ == jailed_role(),
{
    "Jailed"
}

/// The role tag that marks a party member.
pub open spec fn party_role() -> Seq<char> {
    "Party"@
}

pub fn party_role_str() -> (s: &'static str)
    ensures
        s@ == party_role(),
{
    "Party"
}

/// The mathematical value of a profile.
#[verifier::ext_equal]
pub ghost struct ProfileView {
    pub user_id: u64,
    pub discord_username: Seq<char>,
    pub display_name: Seq<char>,
    pub created: u64,
    pub last_seen: u64,
    pub roles: Seq<Seq<char>>,
    pub credit: int,
    pub yuan: u64,
    pub hsk: Option<u8>,
}

impl ProfileView {
    /// Well-formed: roles strictly sorted (hence duplicate-free), the
    /// proficiency level in range, the credit balance within machine bounds.
    pub open spec fn wf(self) -> bool {
        &&& sorted_roles(self.roles)
        &&& match self.hsk {
            Some(h) => h <= MAX_HSK_LEVEL,
            None => true,
        }
        &&& i64::MIN <= self.credit <= i64::MAX
    }
}

pub struct Profile {
    pub user_id: u64,
    pub discord_username: String,
    pub display_name: String,
    pub created: u64,
    pub last_seen: u64,
    pub roles: Vec<String>,
    pub credit: i64,
    pub yuan: u64,
    pub hsk: Option<u8>,
}

impl View for Profile {
    type V = ProfileView;

    open spec fn view(&self) -> ProfileView {
        ProfileView {
            user_id: self.user_id,
            discord_username: self.discord_username@,
            display_name: self.display_name@,
            created: self.created,
            last_seen: self.last_seen,
            roles: roles_view(self.roles@),
            credit: self.credit as int,
            yuan: self.yuan,
            hsk: self.hsk,
        }
    }
}

impl Profile {
    /// A copy with the same value (a derived clone says nothing in specs).
    pub fn duplicate(&self) -> (p: Profile)
        ensures
            p@ == self@,
    {
        let roles = self.roles.clone();
        proof {
            assert(roles@ =~= self.roles@);
            assert(roles_view(roles@) =~= roles_view(self.roles@));
        }
        let p = Profile {
            user_id: self.user_id,
            discord_username: self.discord_username.clone(),
            display_name: self.display_name.clone(),
            created: self.created,
            last_seen: self.last_seen,
            roles,
            credit: self.credit,
            yuan: self.yuan,
            hsk: self.hsk,
        };
        proof {
            assert(p@ =~= self@);
        }
        p
    }

    pub fn has_role(&self, role: &str) -> (r: bool)
        ensures
            r == self@.roles.contains(role@),
    {
        vec_has_role(&self.roles, role)
    }

    /// Adds a role tag, keeping the list sorted; reports whether anything
    /// changed (false when the tag was already present).
    pub fn add_role(&mut self, role: &str) -> (added: bool)
        requires
            sorted_roles(old(self)@.roles),
        ensures
            added == !old(self)@.roles.contains(role@),
            added ==> final(self)@ == (ProfileView {
                roles: insert_sorted(old(self)@.roles, role@),
                ..old(self)@
            }),
            !added ==> final(self)@ == old(self)@,
            sorted_roles(final(self)@.roles),
    {
        let added = vec_add_role(&mut self.roles, role);
        proof {
            if added {
                assert(final(self)@ =~= (ProfileView {
                    roles: insert_sorted(old(self)@.roles, role@),
                    ..old(self)@
                }));
            } else {
                assert(final(self)@ =~= old(self)@);
            }
        }
        added
    }

    /// Removes a role tag; reports whether anything changed.
    pub fn remove_role(&mut self, role: &str) -> (removed: bool)
        requires
            sorted_roles(old(self)@.roles),
        ensures
            removed == old(self)@.roles.contains(role@),
            removed ==> final(self)@ == (ProfileView {
                roles: remove_first(old(self)@.roles, role@),
                ..old(self)@
            }),
            !removed ==> final(self)@ == old(self)@,
            sorted_roles(final(self)@.roles),
            !final(self)@.roles.contains(role@),
    {
        let removed = vec_remove_role(&mut self.roles, role);
        proof {
            if removed {
                assert(final(self)@ =~= (ProfileView {
                    roles: remove_first(old(self)@.roles, role@),
                    ..old(self)@
                }));
            } else {
                assert(final(self)@ =~= old(self)@);
            }
        }
        removed
    }
}

} // verus!
