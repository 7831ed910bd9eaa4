//! The library's cross-cutting guarantees, stated and proved once over
//! the validation and effect specifications that the executable functions
//! are verified against.

use vstd::prelude::*;
use crate::events::{apply_spec, validate_spec, EventView, PayloadView, ValidationError};
use crate::processor::Context;
use crate::profile::{jailed_role, ProfileView, BOOTSTRAP_AMOUNT, STARTING_CREDIT};
use crate::roles::{
    lemma_insert_sorted_contains, lemma_remove_insert_inverse, sorted_roles,
};
use crate::store::{JailPolicy, OverdraftPolicy};

verus! {

/// The bootstrap endowment: a registration accepted against an empty
/// projection creates the profile with the one-time currency grant, and
/// any later registration with none; both start at the starting credit.
pub proof fn lemma_bootstrap_endowment(
    m: Map<u64, ProfileView>,
    id: u128,
    user_id: u64,
    discord_username: Seq<char>,
    overdraft: OverdraftPolicy,
    jail: JailPolicy,
)
    requires
        validate_spec(
            PayloadView::ProfileRegistered { user_id, discord_username },
            m,
            overdraft,
            jail,
        ) == Ok::<(), ValidationError>(()),
    ensures
        apply_spec(
            EventView { id, payload: PayloadView::ProfileRegistered { user_id, discord_username } },
            m,
        ).contains_key(user_id),
        apply_spec(
            EventView { id, payload: PayloadView::ProfileRegistered { user_id, discord_username } },
            m,
        )[user_id].yuan == if m.dom().len() == 0 {
            BOOTSTRAP_AMOUNT
        } else {
            0u64
        },
        apply_spec(
            EventView { id, payload: PayloadView::ProfileRegistered { user_id, discord_username } },
            m,
        )[user_id].credit == STARTING_CREDIT as int,
{
}

/// Honor and dishonor are inverse deltas: for an existing profile with
/// credit `c`, an accepted honor of `amount` followed by a dishonor of
/// the same `amount` returns the projection exactly to where it was.
/// (Under the rejecting overdraft policy this asks that the balance was
/// not negative to begin with, as that policy keeps it.)
pub proof fn lemma_honor_dishonor_inverse(
    m: Map<u64, ProfileView>,
    id1: u128,
    id2: u128,
    to_user_id: u64,
    by_user_id: u64,
    amount: u64,
    reason1: Seq<char>,
    reason2: Seq<char>,
    overdraft: OverdraftPolicy,
    jail: JailPolicy,
)
    requires
        validate_spec(
            PayloadView::ComradeHonored { to_user_id, by_user_id, amount, reason: reason1 },
            m,
            overdraft,
            jail,
        ) == Ok::<(), ValidationError>(()),
        m[to_user_id].credit >= i64::MIN,
        overdraft == OverdraftPolicy::Reject ==> m[to_user_id].credit >= 0,
    ensures
        validate_spec(
            PayloadView::ComradeDishonored { to_user_id, by_user_id, amount, reason: reason2 },
            apply_spec(
                EventView {
                    id: id1,
                    payload: PayloadView::ComradeHonored {
                        to_user_id,
                        by_user_id,
                        amount,
                        reason: reason1,
                    },
                },
                m,
            ),
            overdraft,
            jail,
        ) == Ok::<(), ValidationError>(()),
        apply_spec(
            EventView {
                id: id2,
                payload: PayloadView::ComradeDishonored {
                    to_user_id,
                    by_user_id,
                    amount,
                    reason: reason2,
                },
            },
            apply_spec(
                EventView {
                    id: id1,
                    payload: PayloadView::ComradeHonored {
                        to_user_id,
                        by_user_id,
                        amount,
                        reason: reason1,
                    },
                },
                m,
            ),
        ) == m,
{
    let ev1 = EventView {
        id: id1,
        payload: PayloadView::ComradeHonored { to_user_id, by_user_id, amount, reason: reason1 },
    };
    let ev2 = EventView {
        id: id2,
        payload: PayloadView::ComradeDishonored { to_user_id, by_user_id, amount, reason: reason2 },
    };
    let m1 = apply_spec(ev1, m);
    assert(m1[to_user_id].credit == m[to_user_id].credit + amount);
    let m2 = apply_spec(ev2, m1);
    assert(m2[to_user_id] =~= m[to_user_id]);
    assert(m2 =~= m);
}

/// A self-targeted command never validates, whatever the balances and
/// roles: honoring, dishonoring, jailing or unjailing oneself is
/// rejected.
pub proof fn lemma_self_target_rejected(
    m: Map<u64, ProfileView>,
    user_id: u64,
    amount: u64,
    reason: Seq<char>,
    overdraft: OverdraftPolicy,
    jail: JailPolicy,
)
    ensures
        validate_spec(
            PayloadView::ComradeHonored {
                to_user_id: user_id,
                by_user_id: user_id,
                amount,
                reason,
            },
            m,
            overdraft,
            jail,
        ) is Err,
        validate_spec(
            PayloadView::ComradeDishonored {
                to_user_id: user_id,
                by_user_id: user_id,
                amount,
                reason,
            },
            m,
            overdraft,
            jail,
        ) is Err,
        validate_spec(
            PayloadView::ComradeJailed { to_user_id: user_id, by_user_id: user_id, reason },
            m,
            overdraft,
            jail,
        ) is Err,
        validate_spec(
            PayloadView::ComradeUnjailed { to_user_id: user_id, by_user_id: user_id },
            m,
            overdraft,
            jail,
        ) is Err,
{
}

/// Jailing an already-jailed member fails validation.
pub proof fn lemma_jail_already_jailed_rejected(
    m: Map<u64, ProfileView>,
    to_user_id: u64,
    by_user_id: u64,
    reason: Seq<char>,
    overdraft: OverdraftPolicy,
    jail: JailPolicy,
)
    requires
        m.contains_key(to_user_id),
        m[to_user_id].roles.contains(jailed_role()),
    ensures
        validate_spec(
            PayloadView::ComradeJailed { to_user_id, by_user_id, reason },
            m,
            overdraft,
            jail,
        ) is Err,
{
}

/// Unjailing a member who is not jailed fails validation.
pub proof fn lemma_unjail_not_jailed_rejected(
    m: Map<u64, ProfileView>,
    to_user_id: u64,
    by_user_id: u64,
    overdraft: OverdraftPolicy,
    jail: JailPolicy,
)
    requires
        m.contains_key(to_user_id),
        !m[to_user_id].roles.contains(jailed_role()),
    ensures
        validate_spec(
            PayloadView::ComradeUnjailed { to_user_id, by_user_id },
            m,
            overdraft,
            jail,
        ) is Err,
{
}

/// Jail then unjail restores the role set exactly: after an accepted
/// jail, the unjail of the same member validates and returns the
/// projection to where it was before the jail.
pub proof fn lemma_jail_unjail_inverse(
    m: Map<u64, ProfileView>,
    id1: u128,
    id2: u128,
    to_user_id: u64,
    by_user_id: u64,
    reason: Seq<char>,
    overdraft: OverdraftPolicy,
    jail: JailPolicy,
)
    requires
        validate_spec(
            PayloadView::ComradeJailed { to_user_id, by_user_id, reason },
            m,
            overdraft,
            jail,
        ) == Ok::<(), ValidationError>(()),
        sorted_roles(m[to_user_id].roles),
    ensures
        validate_spec(
            PayloadView::ComradeUnjailed { to_user_id, by_user_id },
            apply_spec(
                EventView {
                    id: id1,
                    payload: PayloadView::ComradeJailed { to_user_id, by_user_id, reason },
                },
                m,
            ),
            overdraft,
            jail,
        ) == Ok::<(), ValidationError>(()),
        apply_spec(
            EventView {
                id: id2,
                payload: PayloadView::ComradeUnjailed { to_user_id, by_user_id },
            },
            apply_spec(
                EventView {
                    id: id1,
                    payload: PayloadView::ComradeJailed { to_user_id, by_user_id, reason },
                },
                m,
            ),
        ) == m,
{
    let ev1 = EventView {
        id: id1,
        payload: PayloadView::ComradeJailed { to_user_id, by_user_id, reason },
    };
    let ev2 = EventView {
        id: id2,
        payload: PayloadView::ComradeUnjailed { to_user_id, by_user_id },
    };
    let rs = m[to_user_id].roles;
    let m1 = apply_spec(ev1, m);
    lemma_insert_sorted_contains(rs, jailed_role());
    assert(m1[to_user_id].roles.contains(jailed_role()));
    assert(m1[by_user_id] == m[by_user_id]);
    lemma_remove_insert_inverse(rs, jailed_role());
    let m2 = apply_spec(ev2, m1);
    assert(m2[to_user_id] =~= m[to_user_id]);
    assert(m2 =~= m);
}

/// Log ordering: in a well-formed context the log's identifiers are
/// strictly increasing along the log.  The processor's contract shows
/// that each accepted command appends exactly one entry at the end with
/// a fresh identifier and keeps the context well-formed, so the log
/// lists accepted commands in acceptance order under ids that grow with
/// it.
pub proof fn lemma_log_ordering(c: Context)
    requires
        c.wf(),
    ensures
        forall|i: int, j: int|
            0 <= i < j < c.event_stream@.len() ==> (#[trigger] c.event_stream@[i]).id < (
            #[trigger] c.event_stream@[j]).id,
{
}

} // verus!
