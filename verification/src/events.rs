//! The command/event family.
//!
//! One record per command type.  An event knows how to validate itself
//! against the current projection, how to apply itself to it, and how to
//! serialize itself as an ordered key/value log record; records parse
//! back to the event they came from.

use vstd::prelude::*;
use vstd::string::StringExecFns;
use crate::ids::{
    spec_ulid_timestamp_ms, ulid_from_string, ulid_text, ulid_to_string, ulid_timestamp_ms,
    EventId,
};
use crate::numtext::{
    all_digits, dec_text, dec_value, lemma_dec_text_digits, lemma_dec_text_value, parse_u64,
    render_u64,
};
use crate::profile::{
    jailed_role, jailed_role_str, party_role, party_role_str, ProfileView, BOOTSTRAP_AMOUNT,
    MAX_HSK_LEVEL, STARTING_CREDIT,
};
use crate::roles::{insert_sorted, remove_first, str_eq};
use crate::store::{JailPolicy, OverdraftPolicy, Store};

verus! {

pub struct ProfileRegistered {
    pub user_id: u64,
    pub discord_username: String,
}

pub struct ComradeHonored {
    pub to_user_id: u64,
    pub by_user_id: u64,
    pub amount: u64,
    pub reason: String,
}

pub struct ComradeDishonored {
    pub to_user_id: u64,
    pub by_user_id: u64,
    pub amount: u64,
    pub reason: String,
}

pub struct ComradeJailed {
    pub to_user_id: u64,
    pub by_user_id: u64,
    pub reason: String,
}

pub struct ComradeUnjailed {
    pub to_user_id: u64,
    pub by_user_id: u64,
}

pub struct SetParty {
    pub user_id: u64,
    pub flag: bool,
}

pub struct SetHsk {
    pub user_id: u64,
    pub hsk: Option<u8>,
}

/// The closed set of command types.
pub enum EventPayload {
    ProfileRegistered(ProfileRegistered),
    ComradeHonored(ComradeHonored),
    ComradeDishonored(ComradeDishonored),
    ComradeJailed(ComradeJailed),
    ComradeUnjailed(ComradeUnjailed),
    SetParty(SetParty),
    SetHsk(SetHsk),
}

/// A command instance: a globally unique, creation-ordered identifier and
/// the command payload.
pub struct Event {
    pub id: EventId,
    pub payload: EventPayload,
}

/// The mathematical value of a payload.
#[verifier::ext_equal]
pub ghost enum PayloadView {
    ProfileRegistered { user_id: u64, discord_username: Seq<char> },
    ComradeHonored { to_user_id: u64, by_user_id: u64, amount: u64, reason: Seq<char> },
    ComradeDishonored { to_user_id: u64, by_user_id: u64, amount: u64, reason: Seq<char> },
    ComradeJailed { to_user_id: u64, by_user_id: u64, reason: Seq<char> },
    ComradeUnjailed { to_user_id: u64, by_user_id: u64 },
    SetParty { user_id: u64, flag: bool },
    SetHsk { user_id: u64, hsk: Option<u8> },
}

/// The mathematical value of an event.
#[verifier::ext_equal]
pub ghost struct EventView {
    pub id: u128,
    pub payload: PayloadView,
}

impl View for EventPayload {
    type V = PayloadView;

    open spec fn view(&self) -> PayloadView {
        match self {
            EventPayload::ProfileRegistered(p) => PayloadView::ProfileRegistered {
                user_id: p.user_id,
                discord_username: p.discord_username@,
            },
            EventPayload::ComradeHonored(p) => PayloadView::ComradeHonored {
                to_user_id: p.to_user_id,
                by_user_id: p.by_user_id,
                amount: p.amount,
                reason: p.reason@,
            },
            EventPayload::ComradeDishonored(p) => PayloadView::ComradeDishonored {
                to_user_id: p.to_user_id,
                by_user_id: p.by_user_id,
                amount: p.amount,
                reason: p.reason@,
            },
            EventPayload::ComradeJailed(p) => PayloadView::ComradeJailed {
                to_user_id: p.to_user_id,
                by_user_id: p.by_user_id,
                reason: p.reason@,
            },
            EventPayload::ComradeUnjailed(p) => PayloadView::ComradeUnjailed {
                to_user_id: p.to_user_id,
                by_user_id: p.by_user_id,
            },
            EventPayload::SetParty(p) => PayloadView::SetParty {
                user_id: p.user_id,
                flag: p.flag,
            },
            EventPayload::SetHsk(p) => PayloadView::SetHsk { user_id: p.user_id, hsk: p.hsk },
        }
    }
}

impl View for Event {
    type V = EventView;

    open spec fn view(&self) -> EventView {
        EventView { id: self.id, payload: self.payload@ }
    }
}

/// The type tag written into the log record.
pub open spec fn kind_name_spec(p: PayloadView) -> Seq<char> {
    match p {
        PayloadView::ProfileRegistered { .. } => "ProfileRegistered"@,
        PayloadView::ComradeHonored { .. } => "ComradeHonored"@,
        PayloadView::ComradeDishonored { .. } => "ComradeDishonored"@,
        PayloadView::ComradeJailed { .. } => "ComradeJailed"@,
        PayloadView::ComradeUnjailed { .. } => "ComradeUnjailed"@,
        PayloadView::SetParty { .. } => "SetParty"@,
        PayloadView::SetHsk { .. } => "SetHsk"@,
    }
}

/// The views of a record's key/value pairs.
pub open spec fn pairs_view(s: Seq<(String, String)>) -> Seq<(Seq<char>, Seq<char>)> {
    s.map_values(|p: (String, String)| (p.0@, p.1@))
}

/// The text form of an optional proficiency level.
pub open spec fn hsk_text(hsk: Option<u8>) -> Seq<char> {
    match hsk {
        Some(h) => dec_text(h as nat),
        None => "none"@,
    }
}

/// The text form of a boolean flag.
pub open spec fn flag_text(flag: bool) -> Seq<char> {
    if flag {
        "true"@
    } else {
        "false"@
    }
}

/// The exact log record of an event: ordered pairs, `id` and `type` first,
/// then the command fields, numbers as decimal text.
pub open spec fn to_map_spec(ev: EventView) -> Seq<(Seq<char>, Seq<char>)> {
    seq![("id"@, ulid_text(ev.id)), ("type"@, kind_name_spec(ev.payload))] + match ev.payload {
        PayloadView::ProfileRegistered { user_id, discord_username } => seq![
            ("user_id"@, dec_text(user_id as nat)),
            ("discord_username"@, discord_username),
        ],
        PayloadView::ComradeHonored { to_user_id, by_user_id, amount, reason } => seq![
            ("to_user_id"@, dec_text(to_user_id as nat)),
            ("by_user_id"@, dec_text(by_user_id as nat)),
            ("amount"@, dec_text(amount as nat)),
            ("reason"@, reason),
        ],
        PayloadView::ComradeDishonored { to_user_id, by_user_id, amount, reason } => seq![
            ("to_user_id"@, dec_text(to_user_id as nat)),
            ("by_user_id"@, dec_text(by_user_id as nat)),
            ("amount"@, dec_text(amount as nat)),
            ("reason"@, reason),
        ],
        PayloadView::ComradeJailed { to_user_id, by_user_id, reason } => seq![
            ("to_user_id"@, dec_text(to_user_id as nat)),
            ("by_user_id"@, dec_text(by_user_id as nat)),
            ("reason"@, reason),
        ],
        PayloadView::ComradeUnjailed { to_user_id, by_user_id } => seq![
            ("to_user_id"@, dec_text(to_user_id as nat)),
            ("by_user_id"@, dec_text(by_user_id as nat)),
        ],
        PayloadView::SetParty { user_id, flag } => seq![
            ("user_id"@, dec_text(user_id as nat)),
            ("flag"@, flag_text(flag)),
        ],
        PayloadView::SetHsk { user_id, hsk } => seq![
            ("user_id"@, dec_text(user_id as nat)),
            ("hsk"@, hsk_text(hsk)),
        ],
    }
}

/// Why a command was rejected.  Validation errors are expected,
/// user-caused, and leave the log and the projection untouched.
#[derive(Clone, Copy, PartialEq, Eq, Structural, Debug)]
pub enum ValidationError {
    AlreadyRegistered { user_id: u64 },
    NonPositiveAmount,
    UnknownToUser { user_id: u64 },
    UnknownByUser { user_id: u64 },
    UnknownUser { user_id: u64 },
    SelfTarget,
    AlreadyJailed,
    NotJailed,
    NotInParty,
    InsufficientCredit,
    CreditOutOfRange,
    HskOutOfRange,
}

/// An infrastructure failure while applying an event.  A validated event
/// applied to the state it was validated against never produces one.
#[derive(Clone, Copy, PartialEq, Eq, Structural, Debug)]
pub enum ExecError {
    MissingProfile,
}

impl ValidationError {
    /// The human-readable text surfaced verbatim to the caller.
    pub open spec fn message_spec(self) -> Seq<char> {
        match self {
            ValidationError::AlreadyRegistered { user_id } => "Profile with user_id already exists: "@
                + dec_text(user_id as nat),
            ValidationError::NonPositiveAmount => "Amount must be positive"@,
            ValidationError::UnknownToUser { user_id } => "No user exists with that toUserId: "@
                + dec_text(user_id as nat),
            ValidationError::UnknownByUser { user_id } => "No user exists with that byUserId: "@
                + dec_text(user_id as nat),
            ValidationError::UnknownUser { user_id } => "No user exists with that userId: "@
                + dec_text(user_id as nat),
            ValidationError::SelfTarget => "toUserId cannot be the same as byUserId"@,
            ValidationError::AlreadyJailed => "User is already jailed"@,
            ValidationError::NotJailed => "User is not jailed"@,
            ValidationError::NotInParty => "Issuer is not in the Party"@,
            ValidationError::InsufficientCredit => "Amount exceeds the available credit"@,
            ValidationError::CreditOutOfRange => "Credit balance would leave the representable range"@,
            ValidationError::HskOutOfRange => "HSK level must be at most 6"@,
        }
    }

    pub fn message(&self) -> (s: String)
        ensures
            s@ == self.message_spec(),
    {
        match self {
            ValidationError::AlreadyRegistered { user_id } => {
                let mut s = "Profile with user_id already exists: ".to_owned();
                let num = render_u64(*user_id);
                s.append(num.as_str());
                s
            },
            ValidationError::NonPositiveAmount => "Amount must be positive".to_owned(),
            ValidationError::UnknownToUser { user_id } => {
                let mut s = "No user exists with that toUserId: ".to_owned();
                let num = render_u64(*user_id);
                s.append(num.as_str());
                s
            },
            ValidationError::UnknownByUser { user_id } => {
                let mut s = "No user exists with that byUserId: ".to_owned();
                let num = render_u64(*user_id);
                s.append(num.as_str());
                s
            },
            ValidationError::UnknownUser { user_id } => {
                let mut s = "No user exists with that userId: ".to_owned();
                let num = render_u64(*user_id);
                s.append(num.as_str());
                s
            },
            ValidationError::SelfTarget => "toUserId cannot be the same as byUserId".to_owned(),
            ValidationError::AlreadyJailed => "User is already jailed".to_owned(),
            ValidationError::NotJailed => "User is not jailed".to_owned(),
            ValidationError::NotInParty => "Issuer is not in the Party".to_owned(),
            ValidationError::InsufficientCredit => "Amount exceeds the available credit".to_owned(),
            ValidationError::CreditOutOfRange => "Credit balance would leave the representable range".to_owned(),
            ValidationError::HskOutOfRange => "HSK level must be at most 6".to_owned(),
        }
    }
}

/// The validation rules, over the projection's map value and the two
/// policy switches.  `Ok` exactly when every rule passes; otherwise the
/// first failing rule's error, in the order the rules are checked.
pub open spec fn validate_spec(
    p: PayloadView,
    m: Map<u64, ProfileView>,
    overdraft: OverdraftPolicy,
    jail: JailPolicy,
) -> Result<(), ValidationError> {
    match p {
        PayloadView::ProfileRegistered { user_id, .. } => if m.contains_key(user_id) {
            Err(ValidationError::AlreadyRegistered { user_id })
        } else {
            Ok(())
        },
        PayloadView::ComradeHonored { to_user_id, by_user_id, amount, .. } => if amount == 0 {
            Err(ValidationError::NonPositiveAmount)
        } else if !m.contains_key(to_user_id) {
            Err(ValidationError::UnknownToUser { user_id: to_user_id })
        } else if !m.contains_key(by_user_id) {
            Err(ValidationError::UnknownByUser { user_id: by_user_id })
        } else if to_user_id == by_user_id {
            Err(ValidationError::SelfTarget)
        } else if m[to_user_id].credit + amount > i64::MAX {
            Err(ValidationError::CreditOutOfRange)
        } else {
            Ok(())
        },
        PayloadView::ComradeDishonored { to_user_id, by_user_id, amount, .. } => if amount == 0 {
            Err(ValidationError::NonPositiveAmount)
        } else if !m.contains_key(to_user_id) {
            Err(ValidationError::UnknownToUser { user_id: to_user_id })
        } else if !m.contains_key(by_user_id) {
            Err(ValidationError::UnknownByUser { user_id: by_user_id })
        } else if to_user_id == by_user_id {
            Err(ValidationError::SelfTarget)
        } else {
            match overdraft {
                OverdraftPolicy::Reject => if m[to_user_id].credit < amount {
                    Err(ValidationError::InsufficientCredit)
                } else {
                    Ok(())
                },
                OverdraftPolicy::Allow => if m[to_user_id].credit - amount < i64::MIN {
                    Err(ValidationError::CreditOutOfRange)
                } else {
                    Ok(())
                },
            }
        },
        PayloadView::ComradeJailed { to_user_id, by_user_id, .. } => if !m.contains_key(
            to_user_id,
        ) {
            Err(ValidationError::UnknownToUser { user_id: to_user_id })
        } else if !m.contains_key(by_user_id) {
            Err(ValidationError::UnknownByUser { user_id: by_user_id })
        } else if to_user_id == by_user_id {
            Err(ValidationError::SelfTarget)
        } else if m[to_user_id].roles.contains(jailed_role()) {
            Err(ValidationError::AlreadyJailed)
        } else if jail == JailPolicy::PartyOnly && !m[by_user_id].roles.contains(party_role()) {
            Err(ValidationError::NotInParty)
        } else {
            Ok(())
        },
        PayloadView::ComradeUnjailed { to_user_id, by_user_id } => if !m.contains_key(to_user_id) {
            Err(ValidationError::UnknownToUser { user_id: to_user_id })
        } else if !m.contains_key(by_user_id) {
            Err(ValidationError::UnknownByUser { user_id: by_user_id })
        } else if to_user_id == by_user_id {
            Err(ValidationError::SelfTarget)
        } else if !m[to_user_id].roles.contains(jailed_role()) {
            Err(ValidationError::NotJailed)
        } else if jail == JailPolicy::PartyOnly && !m[by_user_id].roles.contains(party_role()) {
            Err(ValidationError::NotInParty)
        } else {
            Ok(())
        },
        PayloadView::SetParty { user_id, .. } => if !m.contains_key(user_id) {
            Err(ValidationError::UnknownUser { user_id })
        } else {
            Ok(())
        },
        PayloadView::SetHsk { user_id, hsk } => if !m.contains_key(user_id) {
            Err(ValidationError::UnknownUser { user_id })
        } else {
            match hsk {
                Some(h) => if h > MAX_HSK_LEVEL {
                    Err(ValidationError::HskOutOfRange)
                } else {
                    Ok(())
                },
                None => Ok(()),
            }
        },
    }
}

/// The effect of a validated event on the projection's map value.
pub open spec fn apply_spec(ev: EventView, m: Map<u64, ProfileView>) -> Map<u64, ProfileView> {
    match ev.payload {
        PayloadView::ProfileRegistered { user_id, discord_username } => m.insert(
            user_id,
            ProfileView {
                user_id,
                discord_username,
                display_name: discord_username,
                created: spec_ulid_timestamp_ms(ev.id),
                last_seen: spec_ulid_timestamp_ms(ev.id),
                roles: Seq::empty(),
                credit: STARTING_CREDIT as int,
                yuan: if m.dom().len() == 0 {
                    BOOTSTRAP_AMOUNT
                } else {
                    0
                },
                hsk: None,
            },
        ),
        PayloadView::ComradeHonored { to_user_id, amount, .. } => m.insert(
            to_user_id,
            (ProfileView { credit: m[to_user_id].credit + amount, ..m[to_user_id] }),
        ),
        PayloadView::ComradeDishonored { to_user_id, amount, .. } => m.insert(
            to_user_id,
            (ProfileView { credit: m[to_user_id].credit - amount, ..m[to_user_id] }),
        ),
        PayloadView::ComradeJailed { to_user_id, .. } => m.insert(
            to_user_id,
            (ProfileView {
                roles: insert_sorted(m[to_user_id].roles, jailed_role()),
                ..m[to_user_id]
            }),
        ),
        PayloadView::ComradeUnjailed { to_user_id, .. } => m.insert(
            to_user_id,
            (ProfileView {
                roles: remove_first(m[to_user_id].roles, jailed_role()),
                ..m[to_user_id]
            }),
        ),
        PayloadView::SetParty { user_id, flag } => m.insert(
            user_id,
            (ProfileView {
                roles: if flag {
                    if m[user_id].roles.contains(party_role()) {
                        m[user_id].roles
                    } else {
                        insert_sorted(m[user_id].roles, party_role())
                    }
                } else {
                    if m[user_id].roles.contains(party_role()) {
                        remove_first(m[user_id].roles, party_role())
                    } else {
                        m[user_id].roles
                    }
                },
                ..m[user_id]
            }),
        ),
        PayloadView::SetHsk { user_id, hsk } => m.insert(
            user_id,
            (ProfileView { hsk, ..m[user_id] }),
        ),
    }
}

/// First value stored under a key, scanning from position `i`.
pub open spec fn lookup_from(pairs: Seq<(Seq<char>, Seq<char>)>, key: Seq<char>, i: int) -> Option<
    Seq<char>,
>
    decreases pairs.len() - i,
{
    if i < 0 || i >= pairs.len() {
        None
    } else if pairs[i].0 == key {
        Some(pairs[i].1)
    } else {
        lookup_from(pairs, key, i + 1)
    }
}

proof fn lemma_lookup_at(pairs: Seq<(Seq<char>, Seq<char>)>, key: Seq<char>, s: int, i: int)
    requires
        0 <= s <= i < pairs.len(),
        pairs[i].0 == key,
        forall|j: int| s <= j < i ==> (#[trigger] pairs[j]).0 != key,
    ensures
        lookup_from(pairs, key, s) == Some(pairs[i].1),
    decreases i - s,
{
    if s < i {
        lemma_lookup_at(pairs, key, s + 1, i);
    }
}

/// The record keys, type tags and flag texts are pairwise distinct.
proof fn lemma_keys_distinct()
    ensures
        "id"@ != "type"@,
        "id"@ != "user_id"@,
        "id"@ != "discord_username"@,
        "id"@ != "to_user_id"@,
        "id"@ != "by_user_id"@,
        "id"@ != "amount"@,
        "id"@ != "reason"@,
        "id"@ != "flag"@,
        "id"@ != "hsk"@,
        "type"@ != "user_id"@,
        "type"@ != "discord_username"@,
        "type"@ != "to_user_id"@,
        "type"@ != "by_user_id"@,
        "type"@ != "amount"@,
        "type"@ != "reason"@,
        "type"@ != "flag"@,
        "type"@ != "hsk"@,
        "user_id"@ != "discord_username"@,
        "user_id"@ != "flag"@,
        "user_id"@ != "hsk"@,
        "to_user_id"@ != "by_user_id"@,
        "to_user_id"@ != "amount"@,
        "to_user_id"@ != "reason"@,
        "by_user_id"@ != "amount"@,
        "by_user_id"@ != "reason"@,
        "amount"@ != "reason"@,
        "ProfileRegistered"@ != "ComradeHonored"@,
        "ProfileRegistered"@ != "ComradeDishonored"@,
        "ProfileRegistered"@ != "ComradeJailed"@,
        "ProfileRegistered"@ != "ComradeUnjailed"@,
        "ProfileRegistered"@ != "SetParty"@,
        "ProfileRegistered"@ != "SetHsk"@,
        "ComradeHonored"@ != "ComradeDishonored"@,
        "ComradeHonored"@ != "ComradeJailed"@,
        "ComradeHonored"@ != "ComradeUnjailed"@,
        "ComradeHonored"@ != "SetParty"@,
        "ComradeHonored"@ != "SetHsk"@,
        "ComradeDishonored"@ != "ComradeJailed"@,
        "ComradeDishonored"@ != "ComradeUnjailed"@,
        "ComradeDishonored"@ != "SetParty"@,
        "ComradeDishonored"@ != "SetHsk"@,
        "ComradeJailed"@ != "ComradeUnjailed"@,
        "ComradeJailed"@ != "SetParty"@,
        "ComradeJailed"@ != "SetHsk"@,
        "ComradeUnjailed"@ != "SetParty"@,
        "ComradeUnjailed"@ != "SetHsk"@,
        "SetParty"@ != "SetHsk"@,
        "true"@ != "false"@,
{
    reveal_strlit("id");
    reveal_strlit("type");
    reveal_strlit("user_id");
    reveal_strlit("discord_username");
    reveal_strlit("to_user_id");
    reveal_strlit("by_user_id");
    reveal_strlit("amount");
    reveal_strlit("reason");
    reveal_strlit("flag");
    reveal_strlit("hsk");
    reveal_strlit("ProfileRegistered");
    reveal_strlit("ComradeHonored");
    reveal_strlit("ComradeDishonored");
    reveal_strlit("ComradeJailed");
    reveal_strlit("ComradeUnjailed");
    reveal_strlit("SetParty");
    reveal_strlit("SetHsk");
    reveal_strlit("true");
    reveal_strlit("false");
    assert("id"@.len() == 2);
    assert("type"@.len() == 4);
    assert("user_id"@.len() == 7);
    assert("discord_username"@.len() == 16);
    assert("to_user_id"@.len() == 10);
    assert("by_user_id"@.len() == 10);
    assert("amount"@.len() == 6);
    assert("reason"@.len() == 6);
    assert("flag"@.len() == 4);
    assert("hsk"@.len() == 3);
    assert("ProfileRegistered"@.len() == 17);
    assert("ComradeHonored"@.len() == 14);
    assert("ComradeDishonored"@.len() == 17);
    assert("ComradeJailed"@.len() == 13);
    assert("ComradeUnjailed"@.len() == 15);
    assert("SetParty"@.len() == 8);
    assert("SetHsk"@.len() == 6);
    assert("true"@.len() == 4);
    assert("false"@.len() == 5);
    assert("to_user_id"@[0] == 't' && "by_user_id"@[0] == 'b');
    assert("amount"@[0] == 'a' && "reason"@[0] == 'r');
    assert("type"@[0] == 't' && "flag"@[0] == 'f' && "true"@[0] == 't');
    assert("ProfileRegistered"@[0] == 'P' && "ComradeDishonored"@[0] == 'C');
    assert("amount"@[0] == 'a' && "SetHsk"@[0] == 'S');
}

/// What a lookup finds in the record of any event.
proof fn lemma_record_shape(ev: EventView)
    ensures
        lookup_from(to_map_spec(ev), "id"@, 0) == Some(ulid_text(ev.id)),
        lookup_from(to_map_spec(ev), "type"@, 0) == Some(kind_name_spec(ev.payload)),
        match ev.payload {
            PayloadView::ProfileRegistered { user_id, discord_username } => {
                &&& lookup_from(to_map_spec(ev), "user_id"@, 0) == Some(dec_text(user_id as nat))
                &&& lookup_from(to_map_spec(ev), "discord_username"@, 0) == Some(discord_username)
            },
            PayloadView::ComradeHonored { to_user_id, by_user_id, amount, reason } => {
                &&& lookup_from(to_map_spec(ev), "to_user_id"@, 0) == Some(
                    dec_text(to_user_id as nat),
                )
                &&& lookup_from(to_map_spec(ev), "by_user_id"@, 0) == Some(
                    dec_text(by_user_id as nat),
                )
                &&& lookup_from(to_map_spec(ev), "amount"@, 0) == Some(dec_text(amount as nat))
                &&& lookup_from(to_map_spec(ev), "reason"@, 0) == Some(reason)
            },
            PayloadView::ComradeDishonored { to_user_id, by_user_id, amount, reason } => {
                &&& lookup_from(to_map_spec(ev), "to_user_id"@, 0) == Some(
                    dec_text(to_user_id as nat),
                )
                &&& lookup_from(to_map_spec(ev), "by_user_id"@, 0) == Some(
                    dec_text(by_user_id as nat),
                )
                &&& lookup_from(to_map_spec(ev), "amount"@, 0) == Some(dec_text(amount as nat))
                &&& lookup_from(to_map_spec(ev), "reason"@, 0) == Some(reason)
            },
            PayloadView::ComradeJailed { to_user_id, by_user_id, reason } => {
                &&& lookup_from(to_map_spec(ev), "to_user_id"@, 0) == Some(
                    dec_text(to_user_id as nat),
                )
                &&& lookup_from(to_map_spec(ev), "by_user_id"@, 0) == Some(
                    dec_text(by_user_id as nat),
                )
                &&& lookup_from(to_map_spec(ev), "reason"@, 0) == Some(reason)
            },
            PayloadView::ComradeUnjailed { to_user_id, by_user_id } => {
                &&& lookup_from(to_map_spec(ev), "to_user_id"@, 0) == Some(
                    dec_text(to_user_id as nat),
                )
                &&& lookup_from(to_map_spec(ev), "by_user_id"@, 0) == Some(
                    dec_text(by_user_id as nat),
                )
            },
            PayloadView::SetParty { user_id, flag } => {
                &&& lookup_from(to_map_spec(ev), "user_id"@, 0) == Some(dec_text(user_id as nat))
                &&& lookup_from(to_map_spec(ev), "flag"@, 0) == Some(flag_text(flag))
            },
            PayloadView::SetHsk { user_id, hsk } => {
                &&& lookup_from(to_map_spec(ev), "user_id"@, 0) == Some(dec_text(user_id as nat))
                &&& lookup_from(to_map_spec(ev), "hsk"@, 0) == Some(hsk_text(hsk))
            },
        },
{
    lemma_keys_distinct();
    let m = to_map_spec(ev);
    assert(m[0].0 == "id"@);
    lemma_lookup_at(m, "id"@, 0, 0);
    assert(m[1].0 == "type"@);
    lemma_lookup_at(m, "type"@, 0, 1);
    match ev.payload {
        PayloadView::ProfileRegistered { user_id, discord_username } => {
            assert(m[2].0 == "user_id"@ && m[2].1 == dec_text(user_id as nat));
            lemma_lookup_at(m, "user_id"@, 0, 2);
            assert(m[3].0 == "discord_username"@ && m[3].1 == discord_username);
            lemma_lookup_at(m, "discord_username"@, 0, 3);
        },
        PayloadView::ComradeHonored { to_user_id, by_user_id, amount, reason } => {
            assert(m[2].0 == "to_user_id"@ && m[2].1 == dec_text(to_user_id as nat));
            lemma_lookup_at(m, "to_user_id"@, 0, 2);
            assert(m[3].0 == "by_user_id"@ && m[3].1 == dec_text(by_user_id as nat));
            lemma_lookup_at(m, "by_user_id"@, 0, 3);
            assert(m[4].0 == "amount"@ && m[4].1 == dec_text(amount as nat));
            lemma_lookup_at(m, "amount"@, 0, 4);
            assert(m[5].0 == "reason"@ && m[5].1 == reason);
            lemma_lookup_at(m, "reason"@, 0, 5);
        },
        PayloadView::ComradeDishonored { to_user_id, by_user_id, amount, reason } => {
            assert(m[2].0 == "to_user_id"@ && m[2].1 == dec_text(to_user_id as nat));
            lemma_lookup_at(m, "to_user_id"@, 0, 2);
            assert(m[3].0 == "by_user_id"@ && m[3].1 == dec_text(by_user_id as nat));
            lemma_lookup_at(m, "by_user_id"@, 0, 3);
            assert(m[4].0 == "amount"@ && m[4].1 == dec_text(amount as nat));
            lemma_lookup_at(m, "amount"@, 0, 4);
            assert(m[5].0 == "reason"@ && m[5].1 == reason);
            lemma_lookup_at(m, "reason"@, 0, 5);
        },
        PayloadView::ComradeJailed { to_user_id, by_user_id, reason } => {
            assert(m[2].0 == "to_user_id"@ && m[2].1 == dec_text(to_user_id as nat));
            lemma_lookup_at(m, "to_user_id"@, 0, 2);
            assert(m[3].0 == "by_user_id"@ && m[3].1 == dec_text(by_user_id as nat));
            lemma_lookup_at(m, "by_user_id"@, 0, 3);
            assert(m[4].0 == "reason"@ && m[4].1 == reason);
            lemma_lookup_at(m, "reason"@, 0, 4);
        },
        PayloadView::ComradeUnjailed { to_user_id, by_user_id } => {
            assert(m[2].0 == "to_user_id"@ && m[2].1 == dec_text(to_user_id as nat));
            lemma_lookup_at(m, "to_user_id"@, 0, 2);
            assert(m[3].0 == "by_user_id"@ && m[3].1 == dec_text(by_user_id as nat));
            lemma_lookup_at(m, "by_user_id"@, 0, 3);
        },
        PayloadView::SetParty { user_id, flag } => {
            assert(m[2].0 == "user_id"@ && m[2].1 == dec_text(user_id as nat));
            lemma_lookup_at(m, "user_id"@, 0, 2);
            assert(m[3].0 == "flag"@ && m[3].1 == flag_text(flag));
            lemma_lookup_at(m, "flag"@, 0, 3);
        },
        PayloadView::SetHsk { user_id, hsk } => {
            assert(m[2].0 == "user_id"@ && m[2].1 == dec_text(user_id as nat));
            lemma_lookup_at(m, "user_id"@, 0, 2);
            assert(m[3].0 == "hsk"@ && m[3].1 == hsk_text(hsk));
            lemma_lookup_at(m, "hsk"@, 0, 3);
        },
    }
}

/// First value stored under a key in a record.
fn lookup_value(pairs: &Vec<(String, String)>, key: &str) -> (r: Option<String>)
    ensures
        match r {
            Some(v) => lookup_from(pairs_view(pairs@), key@, 0) == Some(v@),
            None => lookup_from(pairs_view(pairs@), key@, 0) is None,
        },
{
    let len = pairs.len();
    let mut i: usize = 0;
    while i < len
        invariant
            0 <= i <= len,
            len == pairs@.len(),
            lookup_from(pairs_view(pairs@), key@, 0) == lookup_from(
                pairs_view(pairs@),
                key@,
                i as int,
            ),
        decreases len - i,
    {
        if str_eq(pairs[i].0.as_str(), key) {
            proof {
                assert(pairs_view(pairs@)[i as int].0 == key@);
            }
            return Some(pairs[i].1.clone());
        }
        proof {
            assert(pairs_view(pairs@)[i as int].0 != key@);
        }
        i = i + 1;
    }
    None
}

/// The round-trip promise of a parse result: on the exact record of any
/// event, the parse succeeded and yielded that event.
pub open spec fn parse_result_ok(pairs: Seq<(Seq<char>, Seq<char>)>, r: Option<Event>) -> bool {
    match r {
        Some(e) => forall|ev: EventView| pairs == to_map_spec(ev) ==> e@ == ev,
        None => forall|ev: EventView| pairs != to_map_spec(ev),
    }
}

fn parse_registered(pairs: &Vec<(String, String)>, id: u128) -> (r: Option<Event>)
    requires
        lookup_from(pairs_view(pairs@), "type"@, 0) == Some("ProfileRegistered"@),
        forall|ev: EventView| pairs_view(pairs@) == to_map_spec(ev) ==> ev.id == id,
    ensures
        parse_result_ok(pairs_view(pairs@), r),
{
    let ghost pv = pairs_view(pairs@);
    let user_s = match lookup_value(pairs, "user_id") {
        Some(v) => v,
        None => {
            proof {
                assert forall|ev: EventView| pv != to_map_spec(ev) by {
                    if pv == to_map_spec(ev) {
                        lemma_record_shape(ev);
                        lemma_keys_distinct();
                        assert(false);
                    }
                }
            }
            return None;
        },
    };
    let user_id = match parse_u64(user_s.as_str()) {
        Some(u) => u,
        None => {
            proof {
                assert forall|ev: EventView| pv != to_map_spec(ev) by {
                    if pv == to_map_spec(ev) {
                        lemma_record_shape(ev);
                        lemma_keys_distinct();
                        match ev.payload {
                            PayloadView::ProfileRegistered { user_id: uid, .. } => {
                                lemma_dec_text_digits(uid as nat);
                                lemma_dec_text_value(uid as nat);
                            },
                            _ => {},
                        }
                        assert(false);
                    }
                }
            }
            return None;
        },
    };
    let name_s = match lookup_value(pairs, "discord_username") {
        Some(v) => v,
        None => {
            proof {
                assert forall|ev: EventView| pv != to_map_spec(ev) by {
                    if pv == to_map_spec(ev) {
                        lemma_record_shape(ev);
                        lemma_keys_distinct();
                        assert(false);
                    }
                }
            }
            return None;
        },
    };
    let e = Event {
        id,
        payload: EventPayload::ProfileRegistered(
            ProfileRegistered { user_id, discord_username: name_s },
        ),
    };
    proof {
        assert forall|ev: EventView| pv == to_map_spec(ev) implies e@ == ev by {
            lemma_record_shape(ev);
            lemma_keys_distinct();
            match ev.payload {
                PayloadView::ProfileRegistered { user_id: uid, discord_username: dn } => {
                    lemma_dec_text_digits(uid as nat);
                    lemma_dec_text_value(uid as nat);
                    assert(user_id == uid);
                    assert(e@ =~= ev);
                },
                _ => {
                    assert(false);
                },
            }
        }
    }
    Some(e)
}

fn parse_credit_change(pairs: &Vec<(String, String)>, id: u128, honored: bool) -> (r: Option<
    Event,
>)
    requires
        lookup_from(pairs_view(pairs@), "type"@, 0) == Some(
            if honored {
                "ComradeHonored"@
            } else {
                "ComradeDishonored"@
            },
        ),
        forall|ev: EventView| pairs_view(pairs@) == to_map_spec(ev) ==> ev.id == id,
    ensures
        parse_result_ok(pairs_view(pairs@), r),
{
    let ghost pv = pairs_view(pairs@);
    let to_s = match lookup_value(pairs, "to_user_id") {
        Some(v) => v,
        None => {
            proof {
                assert forall|ev: EventView| pv != to_map_spec(ev) by {
                    if pv == to_map_spec(ev) {
                        lemma_record_shape(ev);
                        lemma_keys_distinct();
                        assert(false);
                    }
                }
            }
            return None;
        },
    };
    let by_s = match lookup_value(pairs, "by_user_id") {
        Some(v) => v,
        None => {
            proof {
                assert forall|ev: EventView| pv != to_map_spec(ev) by {
                    if pv == to_map_spec(ev) {
                        lemma_record_shape(ev);
                        lemma_keys_distinct();
                        assert(false);
                    }
                }
            }
            return None;
        },
    };
    let amount_s = match lookup_value(pairs, "amount") {
        Some(v) => v,
        None => {
            proof {
                assert forall|ev: EventView| pv != to_map_spec(ev) by {
                    if pv == to_map_spec(ev) {
                        lemma_record_shape(ev);
                        lemma_keys_distinct();
                        assert(false);
                    }
                }
            }
            return None;
        },
    };
    let reason = match lookup_value(pairs, "reason") {
        Some(v) => v,
        None => {
            proof {
                assert forall|ev: EventView| pv != to_map_spec(ev) by {
                    if pv == to_map_spec(ev) {
                        lemma_record_shape(ev);
                        lemma_keys_distinct();
                        assert(false);
                    }
                }
            }
            return None;
        },
    };
    let to_user_id = match parse_u64(to_s.as_str()) {
        Some(u) => u,
        None => {
            proof {
                lemma_no_credit_change_record(pv, to_s@, by_s@, amount_s@);
            }
            return None;
        },
    };
    let by_user_id = match parse_u64(by_s.as_str()) {
        Some(u) => u,
        None => {
            proof {
                lemma_no_credit_change_record(pv, to_s@, by_s@, amount_s@);
            }
            return None;
        },
    };
    let amount = match parse_u64(amount_s.as_str()) {
        Some(u) => u,
        None => {
            proof {
                lemma_no_credit_change_record(pv, to_s@, by_s@, amount_s@);
            }
            return None;
        },
    };
    let e = Event {
        id,
        payload: if honored {
            EventPayload::ComradeHonored(
                ComradeHonored { to_user_id, by_user_id, amount, reason },
            )
        } else {
            EventPayload::ComradeDishonored(
                ComradeDishonored { to_user_id, by_user_id, amount, reason },
            )
        },
    };
    proof {
        assert forall|ev: EventView| pv == to_map_spec(ev) implies e@ == ev by {
            lemma_record_shape(ev);
            lemma_keys_distinct();
            match ev.payload {
                PayloadView::ComradeHonored { to_user_id: t, by_user_id: b, amount: a, .. } => {
                    lemma_dec_text_digits(t as nat);
                    lemma_dec_text_value(t as nat);
                    lemma_dec_text_digits(b as nat);
                    lemma_dec_text_value(b as nat);
                    lemma_dec_text_digits(a as nat);
                    lemma_dec_text_value(a as nat);
                    assert(honored);
                    assert(e@ =~= ev);
                },
                PayloadView::ComradeDishonored { to_user_id: t, by_user_id: b, amount: a, .. } => {
                    lemma_dec_text_digits(t as nat);
                    lemma_dec_text_value(t as nat);
                    lemma_dec_text_digits(b as nat);
                    lemma_dec_text_value(b as nat);
                    lemma_dec_text_digits(a as nat);
                    lemma_dec_text_value(a as nat);
                    assert(!honored);
                    assert(e@ =~= ev);
                },
                _ => {
                    assert(false);
                },
            }
        }
    }
    Some(e)
}

/// No event record carries a non-numeric `to_user_id`, `by_user_id` or
/// `amount` value.
proof fn lemma_no_credit_change_record(
    pv: Seq<(Seq<char>, Seq<char>)>,
    to_s: Seq<char>,
    by_s: Seq<char>,
    amount_s: Seq<char>,
)
    requires
        lookup_from(pv, "type"@, 0) == Some("ComradeHonored"@) || lookup_from(pv, "type"@, 0)
            == Some("ComradeDishonored"@),
        lookup_from(pv, "to_user_id"@, 0) == Some(to_s),
        lookup_from(pv, "by_user_id"@, 0) == Some(by_s),
        lookup_from(pv, "amount"@, 0) == Some(amount_s),
        (!(to_s.len() > 0 && all_digits(to_s) && dec_value(to_s) <= u64::MAX) || !(by_s.len() > 0
            && all_digits(by_s) && dec_value(by_s) <= u64::MAX) || !(amount_s.len() > 0
            && all_digits(amount_s) && dec_value(amount_s) <= u64::MAX)),
    ensures
        forall|ev: EventView| pv != to_map_spec(ev),
{
    assert forall|ev: EventView| pv != to_map_spec(ev) by {
        if pv == to_map_spec(ev) {
            lemma_record_shape(ev);
            lemma_keys_distinct();
            match ev.payload {
                PayloadView::ComradeHonored { to_user_id: t, by_user_id: b, amount: a, .. } => {
                    lemma_dec_text_digits(t as nat);
                    lemma_dec_text_value(t as nat);
                    lemma_dec_text_digits(b as nat);
                    lemma_dec_text_value(b as nat);
                    lemma_dec_text_digits(a as nat);
                    lemma_dec_text_value(a as nat);
                },
                PayloadView::ComradeDishonored {
                    to_user_id: t,
                    by_user_id: b,
                    amount: a,
                    ..
                } => {
                    lemma_dec_text_digits(t as nat);
                    lemma_dec_text_value(t as nat);
                    lemma_dec_text_digits(b as nat);
                    lemma_dec_text_value(b as nat);
                    lemma_dec_text_digits(a as nat);
                    lemma_dec_text_value(a as nat);
                },
                _ => {},
            }
            assert(false);
        }
    }
}

fn parse_jail_change(pairs: &Vec<(String, String)>, id: u128, jailed: bool) -> (r: Option<Event>)
    requires
        lookup_from(pairs_view(pairs@), "type"@, 0) == Some(
            if jailed {
                "ComradeJailed"@
            } else {
                "ComradeUnjailed"@
            },
        ),
        forall|ev: EventView| pairs_view(pairs@) == to_map_spec(ev) ==> ev.id == id,
    ensures
        parse_result_ok(pairs_view(pairs@), r),
{
    let ghost pv = pairs_view(pairs@);
    let to_s = match lookup_value(pairs, "to_user_id") {
        Some(v) => v,
        None => {
            proof {
                assert forall|ev: EventView| pv != to_map_spec(ev) by {
                    if pv == to_map_spec(ev) {
                        lemma_record_shape(ev);
                        lemma_keys_distinct();
                        assert(false);
                    }
                }
            }
            return None;
        },
    };
    let by_s = match lookup_value(pairs, "by_user_id") {
        Some(v) => v,
        None => {
            proof {
                assert forall|ev: EventView| pv != to_map_spec(ev) by {
                    if pv == to_map_spec(ev) {
                        lemma_record_shape(ev);
                        lemma_keys_distinct();
                        assert(false);
                    }
                }
            }
            return None;
        },
    };
    let to_user_id = match parse_u64(to_s.as_str()) {
        Some(u) => u,
        None => {
            proof {
                lemma_no_jail_change_record(pv, to_s@, by_s@);
            }
            return None;
        },
    };
    let by_user_id = match parse_u64(by_s.as_str()) {
        Some(u) => u,
        None => {
            proof {
                lemma_no_jail_change_record(pv, to_s@, by_s@);
            }
            return None;
        },
    };
    let e = if jailed {
        let reason = match lookup_value(pairs, "reason") {
            Some(v) => v,
            None => {
                proof {
                    assert forall|ev: EventView| pv != to_map_spec(ev) by {
                        if pv == to_map_spec(ev) {
                            lemma_record_shape(ev);
                            lemma_keys_distinct();
                            assert(false);
                        }
                    }
                }
                return None;
            },
        };
        Event {
            id,
            payload: EventPayload::ComradeJailed(ComradeJailed { to_user_id, by_user_id, reason }),
        }
    } else {
        Event {
            id,
            payload: EventPayload::ComradeUnjailed(ComradeUnjailed { to_user_id, by_user_id }),
        }
    };
    proof {
        assert forall|ev: EventView| pv == to_map_spec(ev) implies e@ == ev by {
            lemma_record_shape(ev);
            lemma_keys_distinct();
            match ev.payload {
                PayloadView::ComradeJailed { to_user_id: t, by_user_id: b, .. } => {
                    lemma_dec_text_digits(t as nat);
                    lemma_dec_text_value(t as nat);
                    lemma_dec_text_digits(b as nat);
                    lemma_dec_text_value(b as nat);
                    assert(jailed);
                    assert(e@ =~= ev);
                },
                PayloadView::ComradeUnjailed { to_user_id: t, by_user_id: b } => {
                    lemma_dec_text_digits(t as nat);
                    lemma_dec_text_value(t as nat);
                    lemma_dec_text_digits(b as nat);
                    lemma_dec_text_value(b as nat);
                    assert(!jailed);
                    assert(e@ =~= ev);
                },
                _ => {
                    assert(false);
                },
            }
        }
    }
    Some(e)
}

/// No jail or unjail record carries a non-numeric member id.
proof fn lemma_no_jail_change_record(pv: Seq<(Seq<char>, Seq<char>)>, to_s: Seq<char>, by_s: Seq<char>)
    requires
        lookup_from(pv, "type"@, 0) == Some("ComradeJailed"@) || lookup_from(pv, "type"@, 0)
            == Some("ComradeUnjailed"@),
        lookup_from(pv, "to_user_id"@, 0) == Some(to_s),
        lookup_from(pv, "by_user_id"@, 0) == Some(by_s),
        (!(to_s.len() > 0 && all_digits(to_s) && dec_value(to_s) <= u64::MAX) || !(by_s.len() > 0
            && all_digits(by_s) && dec_value(by_s) <= u64::MAX)),
    ensures
        forall|ev: EventView| pv != to_map_spec(ev),
{
    assert forall|ev: EventView| pv != to_map_spec(ev) by {
        if pv == to_map_spec(ev) {
            lemma_record_shape(ev);
            lemma_keys_distinct();
            match ev.payload {
                PayloadView::ComradeJailed { to_user_id: t, by_user_id: b, .. } => {
                    lemma_dec_text_digits(t as nat);
                    lemma_dec_text_value(t as nat);
                    lemma_dec_text_digits(b as nat);
                    lemma_dec_text_value(b as nat);
                },
                PayloadView::ComradeUnjailed { to_user_id: t, by_user_id: b } => {
                    lemma_dec_text_digits(t as nat);
                    lemma_dec_text_value(t as nat);
                    lemma_dec_text_digits(b as nat);
                    lemma_dec_text_value(b as nat);
                },
                _ => {},
            }
            assert(false);
        }
    }
}

fn parse_set_party(pairs: &Vec<(String, String)>, id: u128) -> (r: Option<Event>)
    requires
        lookup_from(pairs_view(pairs@), "type"@, 0) == Some("SetParty"@),
        forall|ev: EventView| pairs_view(pairs@) == to_map_spec(ev) ==> ev.id == id,
    ensures
        parse_result_ok(pairs_view(pairs@), r),
{
    let ghost pv = pairs_view(pairs@);
    let user_s = match lookup_value(pairs, "user_id") {
        Some(v) => v,
        None => {
            proof {
                assert forall|ev: EventView| pv != to_map_spec(ev) by {
                    if pv == to_map_spec(ev) {
                        lemma_record_shape(ev);
                        lemma_keys_distinct();
                        assert(false);
                    }
                }
            }
            return None;
        },
    };
    let user_id = match parse_u64(user_s.as_str()) {
        Some(u) => u,
        None => {
            proof {
                assert forall|ev: EventView| pv != to_map_spec(ev) by {
                    if pv == to_map_spec(ev) {
                        lemma_record_shape(ev);
                        lemma_keys_distinct();
                        match ev.payload {
                            PayloadView::SetParty { user_id: uid, .. } => {
                                lemma_dec_text_digits(uid as nat);
                                lemma_dec_text_value(uid as nat);
                            },
                            _ => {},
                        }
                        assert(false);
                    }
                }
            }
            return None;
        },
    };
    let flag_s = match lookup_value(pairs, "flag") {
        Some(v) => v,
        None => {
            proof {
                assert forall|ev: EventView| pv != to_map_spec(ev) by {
                    if pv == to_map_spec(ev) {
                        lemma_record_shape(ev);
                        lemma_keys_distinct();
                        assert(false);
                    }
                }
            }
            return None;
        },
    };
    let flag = if str_eq(flag_s.as_str(), "true") {
        true
    } else if str_eq(flag_s.as_str(), "false") {
        false
    } else {
        proof {
            assert forall|ev: EventView| pv != to_map_spec(ev) by {
                if pv == to_map_spec(ev) {
                    lemma_record_shape(ev);
                    lemma_keys_distinct();
                    assert(false);
                }
            }
        }
        return None;
    };
    let e = Event { id, payload: EventPayload::SetParty(SetParty { user_id, flag }) };
    proof {
        assert forall|ev: EventView| pv == to_map_spec(ev) implies e@ == ev by {
            lemma_record_shape(ev);
            lemma_keys_distinct();
            match ev.payload {
                PayloadView::SetParty { user_id: uid, flag: fl } => {
                    lemma_dec_text_digits(uid as nat);
                    lemma_dec_text_value(uid as nat);
                    assert(flag == fl);
                    assert(e@ =~= ev);
                },
                _ => {
                    assert(false);
                },
            }
        }
    }
    Some(e)
}

fn parse_set_hsk(pairs: &Vec<(String, String)>, id: u128) -> (r: Option<Event>)
    requires
        lookup_from(pairs_view(pairs@), "type"@, 0) == Some("SetHsk"@),
        forall|ev: EventView| pairs_view(pairs@) == to_map_spec(ev) ==> ev.id == id,
    ensures
        parse_result_ok(pairs_view(pairs@), r),
{
    let ghost pv = pairs_view(pairs@);
    let user_s = match lookup_value(pairs, "user_id") {
        Some(v) => v,
        None => {
            proof {
                assert forall|ev: EventView| pv != to_map_spec(ev) by {
                    if pv == to_map_spec(ev) {
                        lemma_record_shape(ev);
                        lemma_keys_distinct();
                        assert(false);
                    }
                }
            }
            return None;
        },
    };
    let user_id = match parse_u64(user_s.as_str()) {
        Some(u) => u,
        None => {
            proof {
                assert forall|ev: EventView| pv != to_map_spec(ev) by {
                    if pv == to_map_spec(ev) {
                        lemma_record_shape(ev);
                        lemma_keys_distinct();
                        match ev.payload {
                            PayloadView::SetHsk { user_id: uid, .. } => {
                                lemma_dec_text_digits(uid as nat);
                                lemma_dec_text_value(uid as nat);
                            },
                            _ => {},
                        }
                        assert(false);
                    }
                }
            }
            return None;
        },
    };
    let hsk_s = match lookup_value(pairs, "hsk") {
        Some(v) => v,
        None => {
            proof {
                assert forall|ev: EventView| pv != to_map_spec(ev) by {
                    if pv == to_map_spec(ev) {
                        lemma_record_shape(ev);
                        lemma_keys_distinct();
                        assert(false);
                    }
                }
            }
            return None;
        },
    };
    let hsk: Option<u8> = if str_eq(hsk_s.as_str(), "none") {
        None
    } else {
        match parse_u64(hsk_s.as_str()) {
            Some(v) => {
                if v > 255 {
                    proof {
                        lemma_no_hsk_record(pv, hsk_s@);
                    }
                    return None;
                }
                Some(v as u8)
            },
            None => {
                proof {
                    lemma_no_hsk_record(pv, hsk_s@);
                }
                return None;
            },
        }
    };
    let e = Event { id, payload: EventPayload::SetHsk(SetHsk { user_id, hsk }) };
    proof {
        assert forall|ev: EventView| pv == to_map_spec(ev) implies e@ == ev by {
            lemma_record_shape(ev);
            lemma_keys_distinct();
            match ev.payload {
                PayloadView::SetHsk { user_id: uid, hsk: h } => {
                    lemma_dec_text_digits(uid as nat);
                    lemma_dec_text_value(uid as nat);
                    match h {
                        Some(level) => {
                            lemma_dec_text_digits(level as nat);
                            lemma_dec_text_value(level as nat);
                            lemma_none_not_numeric(level as nat);
                            assert(hsk == Some(level));
                        },
                        None => {
                            assert(hsk_s@ == "none"@);
                            assert(hsk is None);
                        },
                    }
                    assert(e@ =~= ev);
                },
                _ => {
                    assert(false);
                },
            }
        }
    }
    Some(e)
}

/// The absence marker is not decimal text.
proof fn lemma_none_not_numeric(n: nat)
    ensures
        "none"@ != dec_text(n),
{
    reveal_strlit("none");
    lemma_dec_text_digits(n);
    if "none"@ == dec_text(n) {
        assert(dec_text(n)[0] == 'n');
        assert(crate::numtext::is_digit(dec_text(n)[0]));
    }
}

/// No record stores a proficiency level outside a byte, nor non-numeric
/// text other than the absence marker.
proof fn lemma_no_hsk_record(pv: Seq<(Seq<char>, Seq<char>)>, hsk_s: Seq<char>)
    requires
        lookup_from(pv, "type"@, 0) == Some("SetHsk"@),
        lookup_from(pv, "hsk"@, 0) == Some(hsk_s),
        hsk_s != "none"@,
        !(hsk_s.len() > 0 && all_digits(hsk_s) && dec_value(hsk_s) <= 255),
    ensures
        forall|ev: EventView| pv != to_map_spec(ev),
{
    assert forall|ev: EventView| pv != to_map_spec(ev) by {
        if pv == to_map_spec(ev) {
            lemma_record_shape(ev);
            lemma_keys_distinct();
            match ev.payload {
                PayloadView::SetHsk { hsk: h, .. } => {
                    match h {
                        Some(level) => {
                            lemma_dec_text_digits(level as nat);
                            lemma_dec_text_value(level as nat);
                        },
                        None => {},
                    }
                },
                _ => {},
            }
            assert(false);
        }
    }
}

impl Event {
    pub fn id(&self) -> (id: EventId)
        ensures
            id == self.id,
    {
        self.id
    }

    pub fn kind_name(&self) -> (s: &'static str)
        ensures
            s@ == kind_name_spec(self.payload@),
    {
        match &self.payload {
            EventPayload::ProfileRegistered(_) => "ProfileRegistered",
            EventPayload::ComradeHonored(_) => "ComradeHonored",
            EventPayload::ComradeDishonored(_) => "ComradeDishonored",
            EventPayload::ComradeJailed(_) => "ComradeJailed",
            EventPayload::ComradeUnjailed(_) => "ComradeUnjailed",
            EventPayload::SetParty(_) => "SetParty",
            EventPayload::SetHsk(_) => "SetHsk",
        }
    }

    /// The ordered key/value log record of this event.
    pub fn to_map(&self) -> (pairs: Vec<(String, String)>)
        ensures
            pairs_view(pairs@) == to_map_spec(self@),
    {
        let mut pairs: Vec<(String, String)> = Vec::new();
        pairs.push(("id".to_owned(), ulid_to_string(self.id)));
        pairs.push(("type".to_owned(), self.kind_name().to_owned()));
        match &self.payload {
            EventPayload::ProfileRegistered(p) => {
                pairs.push(("user_id".to_owned(), render_u64(p.user_id)));
                pairs.push(("discord_username".to_owned(), p.discord_username.clone()));
            },
            EventPayload::ComradeHonored(p) => {
                pairs.push(("to_user_id".to_owned(), render_u64(p.to_user_id)));
                pairs.push(("by_user_id".to_owned(), render_u64(p.by_user_id)));
                pairs.push(("amount".to_owned(), render_u64(p.amount)));
                pairs.push(("reason".to_owned(), p.reason.clone()));
            },
            EventPayload::ComradeDishonored(p) => {
                pairs.push(("to_user_id".to_owned(), render_u64(p.to_user_id)));
                pairs.push(("by_user_id".to_owned(), render_u64(p.by_user_id)));
                pairs.push(("amount".to_owned(), render_u64(p.amount)));
                pairs.push(("reason".to_owned(), p.reason.clone()));
            },
            EventPayload::ComradeJailed(p) => {
                pairs.push(("to_user_id".to_owned(), render_u64(p.to_user_id)));
                pairs.push(("by_user_id".to_owned(), render_u64(p.by_user_id)));
                pairs.push(("reason".to_owned(), p.reason.clone()));
            },
            EventPayload::ComradeUnjailed(p) => {
                pairs.push(("to_user_id".to_owned(), render_u64(p.to_user_id)));
                pairs.push(("by_user_id".to_owned(), render_u64(p.by_user_id)));
            },
            EventPayload::SetParty(p) => {
                pairs.push(("user_id".to_owned(), render_u64(p.user_id)));
                let flag = if p.flag {
                    "true"
                } else {
                    "false"
                };
                pairs.push(("flag".to_owned(), flag.to_owned()));
            },
            EventPayload::SetHsk(p) => {
                pairs.push(("user_id".to_owned(), render_u64(p.user_id)));
                let hsk = match p.hsk {
                    Some(h) => render_u64(h as u64),
                    None => "none".to_owned(),
                };
                pairs.push(("hsk".to_owned(), hsk));
            },
        }
        proof {
            assert(pairs_view(pairs@) =~= to_map_spec(self@));
        }
        pairs
    }

    /// Parses a log record back into a typed event.  On the exact record
    /// of any event the parse succeeds and yields that event, field for
    /// field — `to_map` followed by `from_map` is the identity.
    pub fn from_map(pairs: &Vec<(String, String)>) -> (r: Option<Event>)
        ensures
            parse_result_ok(pairs_view(pairs@), r),
    {
        let ghost pv = pairs_view(pairs@);
        let id_s = match lookup_value(pairs, "id") {
            Some(s) => s,
            None => {
                proof {
                    assert forall|ev: EventView| pv != to_map_spec(ev) by {
                        if pv == to_map_spec(ev) {
                            lemma_record_shape(ev);
                            assert(false);
                        }
                    }
                }
                return None;
            },
        };
        let id = match ulid_from_string(id_s.as_str()) {
            Some(i) => i,
            None => {
                proof {
                    assert forall|ev: EventView| pv != to_map_spec(ev) by {
                        if pv == to_map_spec(ev) {
                            lemma_record_shape(ev);
                            assert(id_s@ == ulid_text(ev.id));
                            assert(false);
                        }
                    }
                }
                return None;
            },
        };
        proof {
            assert forall|ev: EventView| pv == to_map_spec(ev) implies ev.id == id by {
                lemma_record_shape(ev);
                assert(id_s@ == ulid_text(ev.id));
            }
        }
        let ty = match lookup_value(pairs, "type") {
            Some(s) => s,
            None => {
                proof {
                    assert forall|ev: EventView| pv != to_map_spec(ev) by {
                        if pv == to_map_spec(ev) {
                            lemma_record_shape(ev);
                            assert(false);
                        }
                    }
                }
                return None;
            },
        };
        if str_eq(ty.as_str(), "ProfileRegistered") {
            parse_registered(pairs, id)
        } else if str_eq(ty.as_str(), "ComradeHonored") {
            parse_credit_change(pairs, id, true)
        } else if str_eq(ty.as_str(), "ComradeDishonored") {
            parse_credit_change(pairs, id, false)
        } else if str_eq(ty.as_str(), "ComradeJailed") {
            parse_jail_change(pairs, id, true)
        } else if str_eq(ty.as_str(), "ComradeUnjailed") {
            parse_jail_change(pairs, id, false)
        } else if str_eq(ty.as_str(), "SetParty") {
            parse_set_party(pairs, id)
        } else if str_eq(ty.as_str(), "SetHsk") {
            parse_set_hsk(pairs, id)
        } else {
            proof {
                assert forall|ev: EventView| pv != to_map_spec(ev) by {
                    if pv == to_map_spec(ev) {
                        lemma_record_shape(ev);
                        assert(ty@ == kind_name_spec(ev.payload));
                        assert(false);
                    }
                }
            }
            None
        }
    }

    /// Checks this event against the current projection.  Reads only;
    /// returns exactly what the validation rules say.
    pub fn validate(&self, store: &Store) -> (r: Result<(), ValidationError>)
        requires
            store.wf(),
        ensures
            r == validate_spec(
                self.payload@,
                store@,
                store.spec_overdraft_policy(),
                store.spec_jail_policy(),
            ),
    {
        match &self.payload {
            EventPayload::ProfileRegistered(p) => {
                match store.load_profile(p.user_id) {
                    Some(_) => Err(ValidationError::AlreadyRegistered { user_id: p.user_id }),
                    None => Ok(()),
                }
            },
            EventPayload::ComradeHonored(p) => {
                if p.amount == 0 {
                    return Err(ValidationError::NonPositiveAmount);
                }
                let to = match store.load_profile(p.to_user_id) {
                    Some(t) => t,
                    None => {
                        return Err(ValidationError::UnknownToUser { user_id: p.to_user_id });
                    },
                };
                if store.load_profile(p.by_user_id).is_none() {
                    return Err(ValidationError::UnknownByUser { user_id: p.by_user_id });
                }
                if p.to_user_id == p.by_user_id {
                    return Err(ValidationError::SelfTarget);
                }
                if (p.amount as i128) > (i64::MAX as i128) - (to.credit as i128) {
                    return Err(ValidationError::CreditOutOfRange);
                }
                Ok(())
            },
            EventPayload::ComradeDishonored(p) => {
                if p.amount == 0 {
                    return Err(ValidationError::NonPositiveAmount);
                }
                let to = match store.load_profile(p.to_user_id) {
                    Some(t) => t,
                    None => {
                        return Err(ValidationError::UnknownToUser { user_id: p.to_user_id });
                    },
                };
                if store.load_profile(p.by_user_id).is_none() {
                    return Err(ValidationError::UnknownByUser { user_id: p.by_user_id });
                }
                if p.to_user_id == p.by_user_id {
                    return Err(ValidationError::SelfTarget);
                }
                match store.overdraft_policy() {
                    OverdraftPolicy::Reject => {
                        if (to.credit as i128) < (p.amount as i128) {
                            Err(ValidationError::InsufficientCredit)
                        } else {
                            Ok(())
                        }
                    },
                    OverdraftPolicy::Allow => {
                        if (to.credit as i128) - (p.amount as i128) < (i64::MIN as i128) {
                            Err(ValidationError::CreditOutOfRange)
                        } else {
                            Ok(())
                        }
                    },
                }
            },
            EventPayload::ComradeJailed(p) => {
                let to = match store.load_profile(p.to_user_id) {
                    Some(t) => t,
                    None => {
                        return Err(ValidationError::UnknownToUser { user_id: p.to_user_id });
                    },
                };
                let by = match store.load_profile(p.by_user_id) {
                    Some(b) => b,
                    None => {
                        return Err(ValidationError::UnknownByUser { user_id: p.by_user_id });
                    },
                };
                if p.to_user_id == p.by_user_id {
                    return Err(ValidationError::SelfTarget);
                }
                if to.has_role(jailed_role_str()) {
                    return Err(ValidationError::AlreadyJailed);
                }
                match store.jail_policy() {
                    JailPolicy::PartyOnly => {
                        if !by.has_role(party_role_str()) {
                            Err(ValidationError::NotInParty)
                        } else {
                            Ok(())
                        }
                    },
                    JailPolicy::Anyone => Ok(()),
                }
            },
            EventPayload::ComradeUnjailed(p) => {
                let to = match store.load_profile(p.to_user_id) {
                    Some(t) => t,
                    None => {
                        return Err(ValidationError::UnknownToUser { user_id: p.to_user_id });
                    },
                };
                let by = match store.load_profile(p.by_user_id) {
                    Some(b) => b,
                    None => {
                        return Err(ValidationError::UnknownByUser { user_id: p.by_user_id });
                    },
                };
                if p.to_user_id == p.by_user_id {
                    return Err(ValidationError::SelfTarget);
                }
                if !to.has_role(jailed_role_str()) {
                    return Err(ValidationError::NotJailed);
                }
                match store.jail_policy() {
                    JailPolicy::PartyOnly => {
                        if !by.has_role(party_role_str()) {
                            Err(ValidationError::NotInParty)
                        } else {
                            Ok(())
                        }
                    },
                    JailPolicy::Anyone => Ok(()),
                }
            },
            EventPayload::SetParty(p) => {
                if store.load_profile(p.user_id).is_none() {
                    return Err(ValidationError::UnknownUser { user_id: p.user_id });
                }
                Ok(())
            },
            EventPayload::SetHsk(p) => {
                if store.load_profile(p.user_id).is_none() {
                    return Err(ValidationError::UnknownUser { user_id: p.user_id });
                }
                match p.hsk {
                    Some(h) => {
                        if h > MAX_HSK_LEVEL {
                            Err(ValidationError::HskOutOfRange)
                        } else {
                            Ok(())
                        }
                    },
                    None => Ok(()),
                }
            },
        }
    }

    /// Applies this event to the projection.  Never re-validates: the
    /// processor guarantees it runs only after validation succeeded
    /// against the same state, and then it always succeeds and performs
    /// exactly the specified effect.
    pub fn exec(&self, store: &mut Store) -> (r: Result<(), ExecError>)
        requires
            old(store).wf(),
            validate_spec(
                self.payload@,
                old(store)@,
                old(store).spec_overdraft_policy(),
                old(store).spec_jail_policy(),
            ) == Ok::<(), ValidationError>(()),
        ensures
            r == Ok::<(), ExecError>(()),
            final(store)@ == apply_spec(self@, old(store)@),
            final(store).wf(),
            final(store).spec_overdraft_policy() == old(store).spec_overdraft_policy(),
            final(store).spec_jail_policy() == old(store).spec_jail_policy(),
    {
        match &self.payload {
            EventPayload::ProfileRegistered(p) => {
                let ts = ulid_timestamp_ms(self.id);
                let created = store.register(p.user_id, p.discord_username.clone(), ts);
                proof {
                    assert(store@ =~= apply_spec(self@, old(store)@)) by {
                        assert(created@ =~= (apply_spec(self@, old(store)@))[p.user_id]);
                    }
                }
                Ok(())
            },
            EventPayload::ComradeHonored(p) => {
                let mut to = match store.load_profile(p.to_user_id) {
                    Some(t) => t,
                    None => {
                        proof {
                            assert(false);
                        }
                        return Err(ExecError::MissingProfile);
                    },
                };
                let new_credit = (to.credit as i128) + (p.amount as i128);
                to.credit = new_credit as i64;
                store.store_profile(&to);
                proof {
                    assert(to@ =~= (apply_spec(self@, old(store)@))[p.to_user_id]);
                    assert(store@ =~= apply_spec(self@, old(store)@));
                }
                Ok(())
            },
            EventPayload::ComradeDishonored(p) => {
                let mut to = match store.load_profile(p.to_user_id) {
                    Some(t) => t,
                    None => {
                        proof {
                            assert(false);
                        }
                        return Err(ExecError::MissingProfile);
                    },
                };
                let new_credit = (to.credit as i128) - (p.amount as i128);
                to.credit = new_credit as i64;
                store.store_profile(&to);
                proof {
                    assert(to@ =~= (apply_spec(self@, old(store)@))[p.to_user_id]);
                    assert(store@ =~= apply_spec(self@, old(store)@));
                }
                Ok(())
            },
            EventPayload::ComradeJailed(p) => {
                let mut to = match store.load_profile(p.to_user_id) {
                    Some(t) => t,
                    None => {
                        proof {
                            assert(false);
                        }
                        return Err(ExecError::MissingProfile);
                    },
                };
                to.add_role(jailed_role_str());
                store.store_profile(&to);
                proof {
                    assert(to@ =~= (apply_spec(self@, old(store)@))[p.to_user_id]);
                    assert(store@ =~= apply_spec(self@, old(store)@));
                }
                Ok(())
            },
            EventPayload::ComradeUnjailed(p) => {
                let mut to = match store.load_profile(p.to_user_id) {
                    Some(t) => t,
                    None => {
                        proof {
                            assert(false);
                        }
                        return Err(ExecError::MissingProfile);
                    },
                };
                to.remove_role(jailed_role_str());
                store.store_profile(&to);
                proof {
                    assert(to@ =~= (apply_spec(self@, old(store)@))[p.to_user_id]);
                    assert(store@ =~= apply_spec(self@, old(store)@));
                }
                Ok(())
            },
            EventPayload::SetParty(p) => {
                let mut prof = match store.load_profile(p.user_id) {
                    Some(t) => t,
                    None => {
                        proof {
                            assert(false);
                        }
                        return Err(ExecError::MissingProfile);
                    },
                };
                if p.flag {
                    prof.add_role(party_role_str());
                } else {
                    prof.remove_role(party_role_str());
                }
                store.store_profile(&prof);
                proof {
                    assert(prof@ =~= (apply_spec(self@, old(store)@))[p.user_id]);
                    assert(store@ =~= apply_spec(self@, old(store)@));
                }
                Ok(())
            },
            EventPayload::SetHsk(p) => {
                let mut prof = match store.load_profile(p.user_id) {
                    Some(t) => t,
                    None => {
                        proof {
                            assert(false);
                        }
                        return Err(ExecError::MissingProfile);
                    },
                };
                prof.hsk = p.hsk;
                store.store_profile(&prof);
                proof {
                    assert(prof@ =~= (apply_spec(self@, old(store)@))[p.user_id]);
                    assert(store@ =~= apply_spec(self@, old(store)@));
                }
                Ok(())
            },
        }
    }
}

} // verus!
