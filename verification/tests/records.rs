use chairmanmao::events::{
    ComradeDishonored, ComradeHonored, ComradeJailed, ComradeUnjailed, Event, EventPayload,
    ProfileRegistered, SetHsk, SetParty,
};
use chairmanmao::ids::{ulid_from_string, ulid_to_string, IdGen};
use chairmanmao::numtext::{parse_u64, render_u64};
use chairmanmao::roles::{str_eq, str_lt};

fn round_trip(event: &Event) -> Event {
    let record = event.to_map();
    Event::from_map(&record).expect("a record written by to_map must parse")
}

fn fresh_id() -> u128 {
    let mut gen = IdGen::new();
    gen.next_id().unwrap()
}

#[test]
fn round_trip_profile_registered() {
    let e = Event {
        id: fresh_id(),
        payload: EventPayload::ProfileRegistered(ProfileRegistered {
            user_id: 876378479585808404,
            discord_username: "alpha#0001".to_string(),
        }),
    };
    let r = round_trip(&e);
    assert_eq!(r.id, e.id);
    match r.payload {
        EventPayload::ProfileRegistered(p) => {
            assert_eq!(p.user_id, 876378479585808404);
            assert_eq!(p.discord_username, "alpha#0001");
        }
        _ => panic!("wrong variant"),
    }
}

#[test]
fn round_trip_comrade_honored() {
    let e = Event {
        id: fresh_id(),
        payload: EventPayload::ComradeHonored(ComradeHonored {
            to_user_id: 11,
            by_user_id: 22,
            amount: 50,
            reason: "for bravery".to_string(),
        }),
    };
    let r = round_trip(&e);
    assert_eq!(r.id, e.id);
    match r.payload {
        EventPayload::ComradeHonored(p) => {
            assert_eq!(p.to_user_id, 11);
            assert_eq!(p.by_user_id, 22);
            assert_eq!(p.amount, 50);
            assert_eq!(p.reason, "for bravery");
        }
        _ => panic!("wrong variant"),
    }
}

#[test]
fn round_trip_comrade_dishonored() {
    let e = Event {
        id: fresh_id(),
        payload: EventPayload::ComradeDishonored(ComradeDishonored {
            to_user_id: u64::MAX,
            by_user_id: 0,
            amount: 1,
            reason: "".to_string(),
        }),
    };
    let r = round_trip(&e);
    assert_eq!(r.id, e.id);
    match r.payload {
        EventPayload::ComradeDishonored(p) => {
            assert_eq!(p.to_user_id, u64::MAX);
            assert_eq!(p.by_user_id, 0);
            assert_eq!(p.amount, 1);
            assert_eq!(p.reason, "");
        }
        _ => panic!("wrong variant"),
    }
}

#[test]
fn round_trip_comrade_jailed() {
    let e = Event {
        id: fresh_id(),
        payload: EventPayload::ComradeJailed(ComradeJailed {
            to_user_id: 3,
            by_user_id: 4,
            reason: "乱说话".to_string(),
        }),
    };
    let r = round_trip(&e);
    assert_eq!(r.id, e.id);
    match r.payload {
        EventPayload::ComradeJailed(p) => {
            assert_eq!(p.to_user_id, 3);
            assert_eq!(p.by_user_id, 4);
            assert_eq!(p.reason, "乱说话");
        }
        _ => panic!("wrong variant"),
    }
}

#[test]
fn round_trip_comrade_unjailed() {
    let e = Event {
        id: fresh_id(),
        payload: EventPayload::ComradeUnjailed(ComradeUnjailed { to_user_id: 3, by_user_id: 4 }),
    };
    let r = round_trip(&e);
    assert_eq!(r.id, e.id);
    match r.payload {
        EventPayload::ComradeUnjailed(p) => {
            assert_eq!(p.to_user_id, 3);
            assert_eq!(p.by_user_id, 4);
        }
        _ => panic!("wrong variant"),
    }
}

#[test]
fn round_trip_set_party() {
    for flag in [true, false] {
        let e = Event {
            id: fresh_id(),
            payload: EventPayload::SetParty(SetParty { user_id: 9, flag }),
        };
        let r = round_trip(&e);
        assert_eq!(r.id, e.id);
        match r.payload {
            EventPayload::SetParty(p) => {
                assert_eq!(p.user_id, 9);
                assert_eq!(p.flag, flag);
            }
            _ => panic!("wrong variant"),
        }
    }
}

#[test]
fn round_trip_set_hsk() {
    for hsk in [Some(0u8), Some(6), None] {
        let e = Event {
            id: fresh_id(),
            payload: EventPayload::SetHsk(SetHsk { user_id: 9, hsk }),
        };
        let r = round_trip(&e);
        assert_eq!(r.id, e.id);
        match r.payload {
            EventPayload::SetHsk(p) => {
                assert_eq!(p.user_id, 9);
                assert_eq!(p.hsk, hsk);
            }
            _ => panic!("wrong variant"),
        }
    }
}

#[test]
fn record_shape() {
    let e = Event {
        id: fresh_id(),
        payload: EventPayload::ComradeHonored(ComradeHonored {
            to_user_id: 11,
            by_user_id: 22,
            amount: 50,
            reason: "for bravery".to_string(),
        }),
    };
    let record = e.to_map();
    let keys: Vec<&str> = record.iter().map(|p| p.0.as_str()).collect();
    assert_eq!(keys, ["id", "type", "to_user_id", "by_user_id", "amount", "reason"]);
    assert_eq!(record[0].1.len(), 26);
    assert_eq!(record[1].1, "ComradeHonored");
    assert_eq!(record[2].1, "11");
    assert_eq!(record[3].1, "22");
    assert_eq!(record[4].1, "50");
    assert_eq!(record[5].1, "for bravery");
    assert_eq!(e.kind_name(), "ComradeHonored");
}

#[test]
fn garbage_records_rejected() {
    assert!(Event::from_map(&vec![]).is_none());
    let no_type = vec![("id".to_string(), ulid_to_string(5))];
    assert!(Event::from_map(&no_type).is_none());
    let bad_kind = vec![
        ("id".to_string(), ulid_to_string(5)),
        ("type".to_string(), "SomethingElse".to_string()),
    ];
    assert!(Event::from_map(&bad_kind).is_none());
    let bad_field = vec![
        ("id".to_string(), ulid_to_string(5)),
        ("type".to_string(), "ProfileRegistered".to_string()),
        ("user_id".to_string(), "not-a-number".to_string()),
        ("discord_username".to_string(), "a".to_string()),
    ];
    assert!(Event::from_map(&bad_field).is_none());
}

#[test]
fn decimal_codec() {
    assert_eq!(render_u64(0), "0");
    assert_eq!(render_u64(7), "7");
    assert_eq!(render_u64(1050), "1050");
    assert_eq!(render_u64(u64::MAX), "18446744073709551615");
    assert_eq!(parse_u64("0"), Some(0));
    assert_eq!(parse_u64("1050"), Some(1050));
    assert_eq!(parse_u64("18446744073709551615"), Some(u64::MAX));
    assert_eq!(parse_u64("18446744073709551616"), None);
    assert_eq!(parse_u64(""), None);
    assert_eq!(parse_u64("12x"), None);
    assert_eq!(parse_u64("-1"), None);
    assert_eq!(parse_u64("007"), Some(7));
}

#[test]
fn ulid_text_round_trip() {
    for n in [0u128, 1, 123456789, u128::MAX] {
        let text = ulid_to_string(n);
        assert_eq!(text.len(), 26);
        assert_eq!(ulid_from_string(&text), Some(n));
    }
    assert_eq!(ulid_to_string(0), "00000000000000000000000000");
    assert_eq!(ulid_from_string("definitely not a ulid"), None);
}

#[test]
fn id_gen_monotonic() {
    let mut gen = IdGen::new();
    let mut prev = gen.next_id().unwrap();
    for _ in 0..100 {
        let next = gen.next_id().unwrap();
        assert!(next > prev);
        prev = next;
    }
}

#[test]
fn string_order_helpers() {
    assert!(str_lt("abc", "abd"));
    assert!(str_lt("ab", "abc"));
    assert!(!str_lt("abc", "abc"));
    assert!(!str_lt("b", "abc"));
    assert!(str_lt("Jailed", "Party"));
    assert!(str_eq("same", "same"));
    assert!(!str_eq("same", "sameish"));
}
