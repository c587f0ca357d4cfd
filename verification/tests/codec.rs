use eventsdb::attr::{AttributeMap, AttributeValue};
use eventsdb::codec::event_key;
use eventsdb::error::Error;
use eventsdb::types::{
    ApiEventInfo, EventData, EventEntry, EventInfo, EventState, EventTokens, QuestionItem, States,
};

fn sample_question() -> QuestionItem {
    QuestionItem {
        id: 0,
        likes: 2,
        text: String::from("q"),
        hidden: false,
        answered: true,
        create_time_unix: 3,
    }
}

#[test]
fn test_ser_and_de_1() {
    let entry = EventEntry {
        event: ApiEventInfo {
            tokens: EventTokens {
                public_token: String::from("token1"),
                moderator_token: None,
            },
            data: EventData {
                name: String::from("name"),
                description: String::from("desc"),
                short_url: String::from(""),
                long_url: None,
                mail: None,
            },
            create_time_unix: 1,
            delete_time_unix: 0,
            deleted: false,
            premium_order: Some(String::from("order")),
            last_edit_unix: 2,
            questions: vec![sample_question()],
            state: EventState {
                state: States::Closed,
            },
        },
        version: 2,
        ttl: None,
    };

    let map: AttributeMap = entry.clone().to_attributes();

    let entry_deserialized: EventEntry = EventEntry::try_from_attributes(&map).unwrap();

    assert_eq!(entry, entry_deserialized);
}

#[test]
fn test_ser_and_de_2() {
    let entry = EventEntry {
        event: ApiEventInfo {
            tokens: EventTokens {
                public_token: String::from("token1"),
                moderator_token: Some(String::from("token2")),
            },
            data: EventData {
                name: String::from("name"),
                description: String::from("desc"),
                short_url: String::from(""),
                long_url: Some(String::from("foo")),
                mail: Some(String::from("mail")),
            },
            create_time_unix: 1,
            delete_time_unix: 0,
            deleted: false,
            premium_order: Some(String::from("order")),
            last_edit_unix: 2,
            questions: vec![sample_question()],
            state: EventState {
                state: States::Closed,
            },
        },
        version: 2,
        ttl: Some(12345),
    };

    let map: AttributeMap = entry.clone().to_attributes();

    let entry_deserialized: EventEntry = EventEntry::try_from_attributes(&map).unwrap();

    assert_eq!(entry, entry_deserialized);
}

#[test]
fn absent_moderator_token_decodes_absent() {
    let entry = EventEntry::new(
        ApiEventInfo {
            tokens: EventTokens {
                public_token: String::from("tok"),
                moderator_token: None,
            },
            data: EventData {
                name: String::from("n"),
                description: String::from("d"),
                short_url: String::from(""),
                long_url: None,
                mail: None,
            },
            create_time_unix: 5,
            delete_time_unix: 0,
            deleted: false,
            premium_order: None,
            last_edit_unix: 6,
            questions: vec![],
            state: EventState {
                state: States::Open,
            },
        },
        None,
    );
    let map = entry.clone().to_attributes();
    let decoded = EventEntry::try_from_attributes(&map).unwrap();
    assert_eq!(decoded.event.tokens.moderator_token, None);
    assert_eq!(decoded, entry);
}

#[test]
fn extreme_numbers_round_trip() {
    let entry = EventEntry {
        event: ApiEventInfo {
            tokens: EventTokens {
                public_token: String::from("tok"),
                moderator_token: None,
            },
            data: EventData {
                name: String::from("n"),
                description: String::from("d"),
                short_url: String::from(""),
                long_url: None,
                mail: None,
            },
            create_time_unix: i64::MIN,
            delete_time_unix: i64::MAX,
            deleted: true,
            premium_order: None,
            last_edit_unix: -1,
            questions: vec![QuestionItem {
                id: i64::MAX,
                likes: i32::MIN,
                text: String::from(""),
                hidden: true,
                answered: false,
                create_time_unix: i64::MIN,
            }],
            state: EventState {
                state: States::VotingOnly,
            },
        },
        version: usize::MAX,
        ttl: Some(i64::MIN),
    };
    let map = entry.clone().to_attributes();
    let decoded = EventEntry::try_from_attributes(&map).unwrap();
    assert_eq!(decoded, entry);
}

#[test]
fn unknown_format_is_malformed() {
    let entry = EventEntry::new(
        ApiEventInfo {
            tokens: EventTokens {
                public_token: String::from("tok"),
                moderator_token: None,
            },
            data: EventData {
                name: String::from("n"),
                description: String::from("d"),
                short_url: String::from(""),
                long_url: None,
                mail: None,
            },
            create_time_unix: 1,
            delete_time_unix: 0,
            deleted: false,
            premium_order: None,
            last_edit_unix: 2,
            questions: vec![],
            state: EventState {
                state: States::Open,
            },
        },
        None,
    );
    let mut map = entry.to_attributes();
    for e in map.iter_mut() {
        if e.0 == "format" {
            e.1 = AttributeValue::N(String::from("2"));
        }
    }
    let r = EventEntry::try_from_attributes(&map);
    match r {
        Err(Error::Malformed(f)) => assert_eq!(f, "format"),
        _ => panic!("expected a malformed format tag"),
    }
}

#[test]
fn out_of_range_likes_is_malformed_naming_the_field() {
    let entry = EventEntry {
        event: ApiEventInfo {
            tokens: EventTokens {
                public_token: String::from("tok"),
                moderator_token: None,
            },
            data: EventData {
                name: String::from("n"),
                description: String::from("d"),
                short_url: String::from(""),
                long_url: None,
                mail: None,
            },
            create_time_unix: 1,
            delete_time_unix: 0,
            deleted: false,
            premium_order: None,
            last_edit_unix: 2,
            questions: vec![sample_question()],
            state: EventState {
                state: States::Open,
            },
        },
        version: 0,
        ttl: None,
    };
    let mut map = entry.to_attributes();
    for e in map.iter_mut() {
        if e.0 == "event" {
            if let AttributeValue::M(inner) = &mut e.1 {
                for f in inner.iter_mut() {
                    if f.0 == "questions" {
                        if let AttributeValue::L(items) = &mut f.1 {
                            if let AttributeValue::M(q) = &mut items[0] {
                                for g in q.iter_mut() {
                                    if g.0 == "likes" {
                                        g.1 = AttributeValue::N(String::from("3000000000"));
                                    }
                                }
                            }
                        }
                    }
                }
            }
        }
    }
    match EventEntry::try_from_attributes(&map) {
        Err(Error::Malformed(f)) => assert_eq!(f, "likes"),
        _ => panic!("expected a malformed likes field"),
    }
}

#[test]
fn unparseable_expiry_is_tolerated_as_absent() {
    let entry = EventEntry {
        event: ApiEventInfo {
            tokens: EventTokens {
                public_token: String::from("tok"),
                moderator_token: None,
            },
            data: EventData {
                name: String::from("n"),
                description: String::from("d"),
                short_url: String::from(""),
                long_url: None,
                mail: None,
            },
            create_time_unix: 1,
            delete_time_unix: 0,
            deleted: false,
            premium_order: None,
            last_edit_unix: 2,
            questions: vec![],
            state: EventState {
                state: States::Open,
            },
        },
        version: 0,
        ttl: Some(5),
    };
    let mut map = entry.clone().to_attributes();
    for e in map.iter_mut() {
        if e.0 == "ttl" {
            e.1 = AttributeValue::N(String::from("x9"));
        }
    }
    let decoded = EventEntry::try_from_attributes(&map).unwrap();
    assert_eq!(decoded.ttl, None);
    assert_eq!(decoded.event, entry.event);
}

#[test]
fn storage_key_is_namespaced() {
    assert_eq!(event_key("token1"), "events-token1");
    assert_eq!(event_key(""), "events-");
}

#[test]
fn event_info_from_api_sets_premium() {
    let api = ApiEventInfo {
        tokens: EventTokens {
            public_token: String::from("tok"),
            moderator_token: None,
        },
        data: EventData {
            name: String::from("n"),
            description: String::from("d"),
            short_url: String::from(""),
            long_url: None,
            mail: None,
        },
        create_time_unix: 1,
        delete_time_unix: 0,
        deleted: false,
        premium_order: Some(String::from("order")),
        last_edit_unix: 2,
        questions: vec![],
        state: EventState {
            state: States::Open,
        },
    };
    let info = EventInfo::from(api.clone());
    assert!(info.premium);
    assert_eq!(info.tokens, api.tokens);
    let mut api2 = api;
    api2.premium_order = None;
    let info2 = EventInfo::from(api2);
    assert!(!info2.premium);
}
