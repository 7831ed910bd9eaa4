//! The public operation boundary.
//!
//! Each operation takes member ids as string-encoded unsigned 64-bit
//! integers and amounts as signed 32-bit integers required to be
//! positive, constructs one event with a freshly issued identifier,
//! hands it to the processor, and returns the pass/fail outcome.

use vstd::prelude::*;
use crate::events::{
    apply_spec, to_map_spec, validate_spec, ComradeDishonored, ComradeHonored, ComradeJailed,
    ComradeUnjailed, Event, EventPayload, EventView, PayloadView, ProfileRegistered, SetHsk,
    SetParty, ValidationError,
};
use crate::ids::ulid_text;
use crate::numtext::{all_digits, dec_text, dec_value, parse_u64, render_u64};
use crate::processor::{process_event, Command, Context, LogEntryView};
use crate::roles::roles_view;

verus! {

/// What a string-encoded unsigned 64-bit integer denotes.
pub open spec fn parsed_u64(s: Seq<char>) -> Option<u64> {
    if s.len() > 0 && all_digits(s) && dec_value(s) <= u64::MAX {
        Some(dec_value(s) as u64)
    } else {
        None
    }
}

/// The message reported when an id argument is not decimal text.
pub open spec fn invalid_id_message() -> Seq<char> {
    "Invalid user id: not a decimal 64-bit integer"@
}

fn invalid_id_command() -> (cmd: Command)
    ensures
        !cmd.success,
        match cmd.error {
            Some(m) => m@ == invalid_id_message(),
            None => false,
        },
        cmd.event_id is None,
{
    Command::failed("Invalid user id: not a decimal 64-bit integer".to_owned())
}

/// The command was rejected before or during validation: nothing was
/// written and the given message is reported.
pub open spec fn rejected_outcome(
    before: Context,
    after: Context,
    cmd: Command,
    msg: Seq<char>,
) -> bool {
    &&& !cmd.success
    &&& match cmd.error {
        Some(m) => m@ == msg,
        None => false,
    }
    &&& cmd.event_id is None
    &&& after.store@ == before.store@
    &&& after.event_stream@ == before.event_stream@
}

/// The outcome of handing a payload to the processor under a fresh
/// identifier: a validation failure reports its message and changes
/// nothing; success appends one record and applies the effect.
pub open spec fn command_outcome(
    before: Context,
    after: Context,
    cmd: Command,
    p: PayloadView,
) -> bool {
    match validate_spec(
        p,
        before.store@,
        before.store.spec_overdraft_policy(),
        before.store.spec_jail_policy(),
    ) {
        Err(e) => rejected_outcome(before, after, cmd, e.message_spec()),
        Ok(()) => {
            &&& cmd.success
            &&& cmd.error is None
            &&& exists|id: u128|
                #![auto]
                {
                    &&& after.store@ == apply_spec(EventView { id, payload: p }, before.store@)
                    &&& after.event_stream@ == before.event_stream@.push(
                        LogEntryView {
                            id,
                            record: to_map_spec(EventView { id, payload: p }),
                        },
                    )
                    &&& match cmd.event_id {
                        Some(s) => s@ == ulid_text(id),
                        None => false,
                    }
                }
        },
    }
}

/// What every mutation preserves.
pub open spec fn mutation_frame(before: Context, after: Context) -> bool {
    &&& after.wf()
    &&& after.store.spec_overdraft_policy() == before.store.spec_overdraft_policy()
    &&& after.store.spec_jail_policy() == before.store.spec_jail_policy()
}

/// The profile shape returned to queries.
pub struct Profile {
    pub user_id: String,
    pub discord_username: String,
    pub display_name: String,
    pub roles: Vec<String>,
    pub credit: i64,
    pub yuan: u64,
    pub created: u64,
    pub hsk: Option<u8>,
}

pub struct QueryRoot;

impl QueryRoot {
    /// Point query of a profile; read-only.
    pub fn profile(context: &Context, user_id: &str) -> (r: Option<Profile>)
        requires
            context.wf(),
        ensures
            match r {
                Some(dto) => match parsed_u64(user_id@) {
                    Some(uid) => {
                        &&& context.store@.contains_key(uid)
                        &&& dto.user_id@ == dec_text(uid as nat)
                        &&& dto.discord_username@ == context.store@[uid].discord_username
                        &&& dto.display_name@ == context.store@[uid].display_name
                        &&& roles_view(dto.roles@) == context.store@[uid].roles
                        &&& dto.credit == context.store@[uid].credit
                        &&& dto.yuan == context.store@[uid].yuan
                        &&& dto.created == context.store@[uid].created
                        &&& dto.hsk == context.store@[uid].hsk
                    },
                    None => false,
                },
                None => match parsed_u64(user_id@) {
                    Some(uid) => !context.store@.contains_key(uid),
                    None => true,
                },
            },
    {
        let uid = match parse_u64(user_id) {
            Some(v) => v,
            None => {
                return None;
            },
        };
        let p = match context.store.load_profile(uid) {
            Some(p) => p,
            None => {
                return None;
            },
        };
        Some(
            Profile {
                user_id: render_u64(uid),
                discord_username: p.discord_username,
                display_name: p.display_name,
                roles: p.roles,
                credit: p.credit,
                yuan: p.yuan,
                created: p.created,
                hsk: p.hsk,
            },
        )
    }
}

pub struct MutationRoot;

impl MutationRoot {
    /// Registers a new member.
    pub fn register(context: &mut Context, user_id: String, discord_username: String) -> (cmd:
        Command)
        requires
            old(context).wf(),
            old(context).id_gen.last != Some(u128::MAX),
        ensures
            mutation_frame(*old(context), *final(context)),
            match parsed_u64(user_id@) {
                Some(uid) => command_outcome(
                    *old(context),
                    *final(context),
                    cmd,
                    PayloadView::ProfileRegistered {
                        user_id: uid,
                        discord_username: discord_username@,
                    },
                ),
                None => rejected_outcome(
                    *old(context),
                    *final(context),
                    cmd,
                    invalid_id_message(),
                ),
            },
    {
        let uid = match parse_u64(user_id.as_str()) {
            Some(v) => v,
            None => {
                return invalid_id_command();
            },
        };
        let id = match context.id_gen.next_id() {
            Some(id) => id,
            None => {
                proof {
                    assert(false);
                }
                return invalid_id_command();
            },
        };
        let event = Event {
            id,
            payload: EventPayload::ProfileRegistered(
                ProfileRegistered { user_id: uid, discord_username },
            ),
        };
        process_event(context, &event)
    }

    /// Grants social credit to a member.
    pub fn honor(
        context: &mut Context,
        to_user_id: String,
        by_user_id: String,
        amount: i32,
        reason: String,
    ) -> (cmd: Command)
        requires
            old(context).wf(),
            old(context).id_gen.last != Some(u128::MAX),
        ensures
            mutation_frame(*old(context), *final(context)),
            match (parsed_u64(to_user_id@), parsed_u64(by_user_id@)) {
                (Some(to), Some(by)) => if amount <= 0 {
                    rejected_outcome(
                        *old(context),
                        *final(context),
                        cmd,
                        ValidationError::NonPositiveAmount.message_spec(),
                    )
                } else {
                    command_outcome(
                        *old(context),
                        *final(context),
                        cmd,
                        PayloadView::ComradeHonored {
                            to_user_id: to,
                            by_user_id: by,
                            amount: amount as u64,
                            reason: reason@,
                        },
                    )
                },
                _ => rejected_outcome(*old(context), *final(context), cmd, invalid_id_message()),
            },
    {
        let to = match parse_u64(to_user_id.as_str()) {
            Some(v) => v,
            None => {
                return invalid_id_command();
            },
        };
        let by = match parse_u64(by_user_id.as_str()) {
            Some(v) => v,
            None => {
                return invalid_id_command();
            },
        };
        if amount <= 0 {
            return Command::failed(ValidationError::NonPositiveAmount.message());
        }
        let id = match context.id_gen.next_id() {
            Some(id) => id,
            None => {
                proof {
                    assert(false);
                }
                return invalid_id_command();
            },
        };
        let event = Event {
            id,
            payload: EventPayload::ComradeHonored(
                ComradeHonored {
                    to_user_id: to,
                    by_user_id: by,
                    amount: amount as u64,
                    reason,
                },
            ),
        };
        process_event(context, &event)
    }

    /// Deducts social credit from a member.
    pub fn dishonor(
        context: &mut Context,
        to_user_id: String,
        by_user_id: String,
        amount: i32,
        reason: String,
    ) -> (cmd: Command)
        requires
            old(context).wf(),
            old(context).id_gen.last != Some(u128::MAX),
        ensures
            mutation_frame(*old(context), *final(context)),
            match (parsed_u64(to_user_id@), parsed_u64(by_user_id@)) {
                (Some(to), Some(by)) => if amount <= 0 {
                    rejected_outcome(
                        *old(context),
                        *final(context),
                        cmd,
                        ValidationError::NonPositiveAmount.message_spec(),
                    )
                } else {
                    command_outcome(
                        *old(context),
                        *final(context),
                        cmd,
                        PayloadView::ComradeDishonored {
                            to_user_id: to,
                            by_user_id: by,
                            amount: amount as u64,
                            reason: reason@,
                        },
                    )
                },
                _ => rejected_outcome(*old(context), *final(context), cmd, invalid_id_message()),
            },
    {
        let to = match parse_u64(to_user_id.as_str()) {
            Some(v) => v,
            None => {
                return invalid_id_command();
            },
        };
        let by = match parse_u64(by_user_id.as_str()) {
            Some(v) => v,
            None => {
                return invalid_id_command();
            },
        };
        if amount <= 0 {
            return Command::failed(ValidationError::NonPositiveAmount.message());
        }
        let id = match context.id_gen.next_id() {
            Some(id) => id,
            None => {
                proof {
                    assert(false);
                }
                return invalid_id_command();
            },
        };
        let event = Event {
            id,
            payload: EventPayload::ComradeDishonored(
                ComradeDishonored {
                    to_user_id: to,
                    by_user_id: by,
                    amount: amount as u64,
                    reason,
                },
            ),
        };
        process_event(context, &event)
    }

    /// Jails a member.
    pub fn jail(
        context: &mut Context,
        to_user_id: String,
        by_user_id: String,
        reason: String,
    ) -> (cmd: Command)
        requires
            old(context).wf(),
            old(context).id_gen.last != Some(u128::MAX),
        ensures
            mutation_frame(*old(context), *final(context)),
            match (parsed_u64(to_user_id@), parsed_u64(by_user_id@)) {
                (Some(to), Some(by)) => command_outcome(
                    *old(context),
                    *final(context),
                    cmd,
                    PayloadView::ComradeJailed {
                        to_user_id: to,
                        by_user_id: by,
                        reason: reason@,
                    },
                ),
                _ => rejected_outcome(*old(context), *final(context), cmd, invalid_id_message()),
            },
    {
        let to = match parse_u64(to_user_id.as_str()) {
            Some(v) => v,
            None => {
                return invalid_id_command();
            },
        };
        let by = match parse_u64(by_user_id.as_str()) {
            Some(v) => v,
            None => {
                return invalid_id_command();
            },
        };
        let id = match context.id_gen.next_id() {
            Some(id) => id,
            None => {
                proof {
                    assert(false);
                }
                return invalid_id_command();
            },
        };
        let event = Event {
            id,
            payload: EventPayload::ComradeJailed(
                ComradeJailed { to_user_id: to, by_user_id: by, reason },
            ),
        };
        process_event(context, &event)
    }

    /// Releases a jailed member.
    pub fn unjail(context: &mut Context, to_user_id: String, by_user_id: String) -> (cmd: Command)
        requires
            old(context).wf(),
            old(context).id_gen.last != Some(u128::MAX),
        ensures
            mutation_frame(*old(context), *final(context)),
            match (parsed_u64(to_user_id@), parsed_u64(by_user_id@)) {
                (Some(to), Some(by)) => command_outcome(
                    *old(context),
                    *final(context),
                    cmd,
                    PayloadView::ComradeUnjailed { to_user_id: to, by_user_id: by },
                ),
                _ => rejected_outcome(*old(context), *final(context), cmd, invalid_id_message()),
            },
    {
        let to = match parse_u64(to_user_id.as_str()) {
            Some(v) => v,
            None => {
                return invalid_id_command();
            },
        };
        let by = match parse_u64(by_user_id.as_str()) {
            Some(v) => v,
            None => {
                return invalid_id_command();
            },
        };
        let id = match context.id_gen.next_id() {
            Some(id) => id,
            None => {
                proof {
                    assert(false);
                }
                return invalid_id_command();
            },
        };
        let event = Event {
            id,
            payload: EventPayload::ComradeUnjailed(
                ComradeUnjailed { to_user_id: to, by_user_id: by },
            ),
        };
        process_event(context, &event)
    }

    /// Adds or removes the party role.
    pub fn set_party(context: &mut Context, user_id: String, flag: bool) -> (cmd: Command)
        requires
            old(context).wf(),
            old(context).id_gen.last != Some(u128::MAX),
        ensures
            mutation_frame(*old(context), *final(context)),
            match parsed_u64(user_id@) {
                Some(uid) => command_outcome(
                    *old(context),
                    *final(context),
                    cmd,
                    PayloadView::SetParty { user_id: uid, flag },
                ),
                None => rejected_outcome(
                    *old(context),
                    *final(context),
                    cmd,
                    invalid_id_message(),
                ),
            },
    {
        let uid = match parse_u64(user_id.as_str()) {
            Some(v) => v,
            None => {
                return invalid_id_command();
            },
        };
        let id = match context.id_gen.next_id() {
            Some(id) => id,
            None => {
                proof {
                    assert(false);
                }
                return invalid_id_command();
            },
        };
        let event = Event { id, payload: EventPayload::SetParty(SetParty { user_id: uid, flag }) };
        process_event(context, &event)
    }

    /// Sets the proficiency level.
    pub fn set_hsk(context: &mut Context, user_id: String, hsk: Option<i32>) -> (cmd: Command)
        requires
            old(context).wf(),
            old(context).id_gen.last != Some(u128::MAX),
        ensures
            mutation_frame(*old(context), *final(context)),
            match parsed_u64(user_id@) {
                Some(uid) => match hsk {
                    Some(h) => if h < 0 || h > 255 {
                        rejected_outcome(
                            *old(context),
                            *final(context),
                            cmd,
                            ValidationError::HskOutOfRange.message_spec(),
                        )
                    } else {
                        command_outcome(
                            *old(context),
                            *final(context),
                            cmd,
                            PayloadView::SetHsk { user_id: uid, hsk: Some(h as u8) },
                        )
                    },
                    None => command_outcome(
                        *old(context),
                        *final(context),
                        cmd,
                        PayloadView::SetHsk { user_id: uid, hsk: None },
                    ),
                },
                None => rejected_outcome(
                    *old(context),
                    *final(context),
                    cmd,
                    invalid_id_message(),
                ),
            },
    {
        let uid = match parse_u64(user_id.as_str()) {
            Some(v) => v,
            None => {
                return invalid_id_command();
            },
        };
        let level: Option<u8> = match hsk {
            Some(h) => {
                if h < 0 || h > 255 {
                    return Command::failed(ValidationError::HskOutOfRange.message());
                }
                Some(h as u8)
            },
            None => None,
        };
        let id = match context.id_gen.next_id() {
            Some(id) => id,
            None => {
                proof {
                    assert(false);
                }
                return invalid_id_command();
            },
        };
        let event = Event {
            id,
            payload: EventPayload::SetHsk(SetHsk { user_id: uid, hsk: level }),
        };
        process_event(context, &event)
    }
}

} // verus!
