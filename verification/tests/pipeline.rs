use chairmanmao::processor::{process_event, Command, Context};
use chairmanmao::schema::{MutationRoot, QueryRoot};
use chairmanmao::store::{JailPolicy, OverdraftPolicy, Store};
use chairmanmao::events::{ComradeHonored, Event, EventPayload, ValidationError};

fn ok(cmd: &Command) -> bool {
    cmd.success && cmd.error.is_none() && cmd.event_id.is_some()
}

fn err_msg(cmd: &Command) -> &str {
    assert!(!cmd.success);
    assert!(cmd.event_id.is_none());
    cmd.error.as_deref().unwrap()
}

#[test]
fn bootstrap_scenario() {
    let mut c = Context::new();

    let cmd = MutationRoot::register(&mut c, "1001".to_string(), "alpha#1".to_string());
    assert!(ok(&cmd));
    let p = QueryRoot::profile(&c, "1001").unwrap();
    assert_eq!(p.yuan, 10000);
    assert_eq!(p.credit, 1000);
    assert_eq!(p.user_id, "1001");
    assert_eq!(p.discord_username, "alpha#1");
    assert_eq!(p.display_name, "alpha#1");
    assert!(p.roles.is_empty());
    assert_eq!(p.hsk, None);

    let cmd = MutationRoot::register(&mut c, "1002".to_string(), "beta#2".to_string());
    assert!(ok(&cmd));
    let p = QueryRoot::profile(&c, "1002").unwrap();
    assert_eq!(p.yuan, 0);
    assert_eq!(p.credit, 1000);

    let cmd = MutationRoot::honor(
        &mut c,
        "1002".to_string(),
        "1001".to_string(),
        50,
        "good work".to_string(),
    );
    assert!(ok(&cmd));
    let p = QueryRoot::profile(&c, "1002").unwrap();
    assert_eq!(p.credit, 1050);
    assert_eq!(c.event_stream.len(), 3);
    let entry = c.event_stream.entry(2);
    assert_eq!(entry.record[1].0, "type");
    assert_eq!(entry.record[1].1, "ComradeHonored");

    let cmd = MutationRoot::jail(
        &mut c,
        "1002".to_string(),
        "1001".to_string(),
        "sedition".to_string(),
    );
    assert!(ok(&cmd));
    let len_after_jail = c.event_stream.len();
    let cmd = MutationRoot::jail(
        &mut c,
        "1002".to_string(),
        "1001".to_string(),
        "sedition".to_string(),
    );
    assert_eq!(err_msg(&cmd), "User is already jailed");
    assert_eq!(c.event_stream.len(), len_after_jail);
}

#[test]
fn validate_before_log() {
    let mut c = Context::new();
    assert!(ok(&MutationRoot::register(&mut c, "1".to_string(), "a".to_string())));
    let log_len = c.event_stream.len();
    let before = QueryRoot::profile(&c, "1").unwrap();

    // unknown target: rejected, nothing written
    let cmd = MutationRoot::honor(&mut c, "9999".to_string(), "1".to_string(), 5, "x".to_string());
    assert_eq!(err_msg(&cmd), "No user exists with that toUserId: 9999");
    assert_eq!(c.event_stream.len(), log_len);
    let after = QueryRoot::profile(&c, "1").unwrap();
    assert_eq!(after.credit, before.credit);
    assert_eq!(after.yuan, before.yuan);
    assert_eq!(after.roles, before.roles);

    // unknown issuer
    let cmd = MutationRoot::honor(&mut c, "1".to_string(), "9998".to_string(), 5, "x".to_string());
    assert_eq!(err_msg(&cmd), "No user exists with that byUserId: 9998");
    assert_eq!(c.event_stream.len(), log_len);
}

#[test]
fn duplicate_registration_rejected() {
    let mut c = Context::new();
    assert!(ok(&MutationRoot::register(&mut c, "42".to_string(), "a".to_string())));
    let cmd = MutationRoot::register(&mut c, "42".to_string(), "b".to_string());
    assert_eq!(err_msg(&cmd), "Profile with user_id already exists: 42");
    assert_eq!(c.event_stream.len(), 1);
}

#[test]
fn honor_dishonor_inverse() {
    let mut c = Context::new();
    assert!(ok(&MutationRoot::register(&mut c, "1".to_string(), "a".to_string())));
    assert!(ok(&MutationRoot::register(&mut c, "2".to_string(), "b".to_string())));
    let before = QueryRoot::profile(&c, "2").unwrap().credit;
    assert!(ok(&MutationRoot::honor(&mut c, "2".to_string(), "1".to_string(), 77, "x".to_string())));
    assert_eq!(QueryRoot::profile(&c, "2").unwrap().credit, before + 77);
    assert!(ok(&MutationRoot::dishonor(&mut c, "2".to_string(), "1".to_string(), 77, "y".to_string())));
    assert_eq!(QueryRoot::profile(&c, "2").unwrap().credit, before);
}

#[test]
fn self_target_rejected() {
    let mut c = Context::new();
    assert!(ok(&MutationRoot::register(&mut c, "7".to_string(), "a".to_string())));
    let cmd = MutationRoot::honor(&mut c, "7".to_string(), "7".to_string(), 5, "x".to_string());
    assert_eq!(err_msg(&cmd), "toUserId cannot be the same as byUserId");
    let cmd = MutationRoot::dishonor(&mut c, "7".to_string(), "7".to_string(), 5, "x".to_string());
    assert_eq!(err_msg(&cmd), "toUserId cannot be the same as byUserId");
    let cmd = MutationRoot::jail(&mut c, "7".to_string(), "7".to_string(), "x".to_string());
    assert_eq!(err_msg(&cmd), "toUserId cannot be the same as byUserId");
    let cmd = MutationRoot::unjail(&mut c, "7".to_string(), "7".to_string());
    assert_eq!(err_msg(&cmd), "toUserId cannot be the same as byUserId");
}

#[test]
fn nonpositive_amount_rejected() {
    let mut c = Context::new();
    assert!(ok(&MutationRoot::register(&mut c, "1".to_string(), "a".to_string())));
    assert!(ok(&MutationRoot::register(&mut c, "2".to_string(), "b".to_string())));
    let cmd = MutationRoot::honor(&mut c, "2".to_string(), "1".to_string(), 0, "x".to_string());
    assert_eq!(err_msg(&cmd), "Amount must be positive");
    let cmd = MutationRoot::dishonor(&mut c, "2".to_string(), "1".to_string(), -3, "x".to_string());
    assert_eq!(err_msg(&cmd), "Amount must be positive");
    assert_eq!(c.event_stream.len(), 2);
}

#[test]
fn jail_unjail_restores_roles() {
    let mut c = Context::new();
    assert!(ok(&MutationRoot::register(&mut c, "1".to_string(), "a".to_string())));
    assert!(ok(&MutationRoot::register(&mut c, "2".to_string(), "b".to_string())));
    assert!(ok(&MutationRoot::set_party(&mut c, "2".to_string(), true)));
    let roles_before = QueryRoot::profile(&c, "2").unwrap().roles;
    assert_eq!(roles_before, vec!["Party".to_string()]);

    assert!(ok(&MutationRoot::jail(&mut c, "2".to_string(), "1".to_string(), "x".to_string())));
    let roles_jailed = QueryRoot::profile(&c, "2").unwrap().roles;
    assert_eq!(roles_jailed, vec!["Jailed".to_string(), "Party".to_string()]);

    assert!(ok(&MutationRoot::unjail(&mut c, "2".to_string(), "1".to_string())));
    let roles_after = QueryRoot::profile(&c, "2").unwrap().roles;
    assert_eq!(roles_after, roles_before);

    // unjailing a member who is not jailed fails
    let cmd = MutationRoot::unjail(&mut c, "2".to_string(), "1".to_string());
    assert_eq!(err_msg(&cmd), "User is not jailed");
}

#[test]
fn log_ids_strictly_increasing() {
    let mut c = Context::new();
    assert!(ok(&MutationRoot::register(&mut c, "1".to_string(), "a".to_string())));
    assert!(ok(&MutationRoot::register(&mut c, "2".to_string(), "b".to_string())));
    for i in 0..5 {
        assert!(ok(&MutationRoot::honor(
            &mut c,
            "2".to_string(),
            "1".to_string(),
            1 + i,
            "x".to_string(),
        )));
    }
    let n = c.event_stream.len();
    assert_eq!(n, 7);
    for i in 1..n {
        let a = c.event_stream.entry(i - 1);
        let b = c.event_stream.entry(i);
        assert!(a.id < b.id);
        // the identifier text (26-character, order-preserving encoding)
        assert_eq!(a.record[0].0, "id");
        assert_eq!(a.record[0].1.len(), 26);
        assert!(a.record[0].1 < b.record[0].1);
    }
}

#[test]
fn party_only_jail_policy() {
    let mut c = Context::with_policies(OverdraftPolicy::Allow, JailPolicy::PartyOnly);
    assert!(ok(&MutationRoot::register(&mut c, "1".to_string(), "a".to_string())));
    assert!(ok(&MutationRoot::register(&mut c, "2".to_string(), "b".to_string())));
    let cmd = MutationRoot::jail(&mut c, "2".to_string(), "1".to_string(), "x".to_string());
    assert_eq!(err_msg(&cmd), "Issuer is not in the Party");
    assert!(ok(&MutationRoot::set_party(&mut c, "1".to_string(), true)));
    assert!(ok(&MutationRoot::jail(&mut c, "2".to_string(), "1".to_string(), "x".to_string())));
}

#[test]
fn overdraft_policies() {
    // default: the balance may go negative
    let mut c = Context::new();
    assert!(ok(&MutationRoot::register(&mut c, "1".to_string(), "a".to_string())));
    assert!(ok(&MutationRoot::register(&mut c, "2".to_string(), "b".to_string())));
    assert!(ok(&MutationRoot::dishonor(&mut c, "2".to_string(), "1".to_string(), 1100, "x".to_string())));
    assert_eq!(QueryRoot::profile(&c, "2").unwrap().credit, -100);

    // rejecting policy: the same dishonor fails and changes nothing
    let mut c = Context::with_policies(OverdraftPolicy::Reject, JailPolicy::Anyone);
    assert!(ok(&MutationRoot::register(&mut c, "1".to_string(), "a".to_string())));
    assert!(ok(&MutationRoot::register(&mut c, "2".to_string(), "b".to_string())));
    let cmd = MutationRoot::dishonor(&mut c, "2".to_string(), "1".to_string(), 1100, "x".to_string());
    assert_eq!(err_msg(&cmd), "Amount exceeds the available credit");
    assert_eq!(QueryRoot::profile(&c, "2").unwrap().credit, 1000);
    assert!(ok(&MutationRoot::dishonor(&mut c, "2".to_string(), "1".to_string(), 1000, "x".to_string())));
    assert_eq!(QueryRoot::profile(&c, "2").unwrap().credit, 0);
}

#[test]
fn set_hsk_levels() {
    let mut c = Context::new();
    assert!(ok(&MutationRoot::register(&mut c, "1".to_string(), "a".to_string())));
    assert!(ok(&MutationRoot::set_hsk(&mut c, "1".to_string(), Some(3))));
    assert_eq!(QueryRoot::profile(&c, "1").unwrap().hsk, Some(3));
    let cmd = MutationRoot::set_hsk(&mut c, "1".to_string(), Some(7));
    assert_eq!(err_msg(&cmd), "HSK level must be at most 6");
    assert_eq!(QueryRoot::profile(&c, "1").unwrap().hsk, Some(3));
    assert!(ok(&MutationRoot::set_hsk(&mut c, "1".to_string(), None)));
    assert_eq!(QueryRoot::profile(&c, "1").unwrap().hsk, None);
    let cmd = MutationRoot::set_hsk(&mut c, "9".to_string(), Some(1));
    assert_eq!(err_msg(&cmd), "No user exists with that userId: 9");
}

#[test]
fn invalid_id_text_rejected() {
    let mut c = Context::new();
    let cmd = MutationRoot::register(&mut c, "abc".to_string(), "a".to_string());
    assert_eq!(err_msg(&cmd), "Invalid user id: not a decimal 64-bit integer");
    let cmd = MutationRoot::register(&mut c, "".to_string(), "a".to_string());
    assert_eq!(err_msg(&cmd), "Invalid user id: not a decimal 64-bit integer");
    assert_eq!(c.event_stream.len(), 0);
    assert!(QueryRoot::profile(&c, "abc").is_none());
}

#[test]
fn credit_overflow_guard() {
    let mut store = Store::new();
    let p = store.register(1, "a".to_string(), 0);
    assert_eq!(p.credit, 1000);
    let _ = store.register(2, "b".to_string(), 0);
    let event = Event {
        id: 1,
        payload: EventPayload::ComradeHonored(ComradeHonored {
            to_user_id: 1,
            by_user_id: 2,
            amount: u64::MAX,
            reason: "x".to_string(),
        }),
    };
    assert_eq!(event.validate(&store), Err(ValidationError::CreditOutOfRange));
}

#[test]
fn process_event_reports_id() {
    let mut c = Context::new();
    let id = c.id_gen.next_id().unwrap();
    let event = Event {
        id,
        payload: EventPayload::ProfileRegistered(chairmanmao::events::ProfileRegistered {
            user_id: 5,
            discord_username: "e".to_string(),
        }),
    };
    let cmd = process_event(&mut c, &event);
    assert!(cmd.success);
    let text = cmd.event_id.unwrap();
    assert_eq!(text.len(), 26);
    assert_eq!(c.event_stream.entry(0).record[0].1, text);
}
