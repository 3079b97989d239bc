use message_board::service::{
    list, post, post_at, purge_all_messages, validate, BadRequestKind, Receipt, ServiceError,
    ValidationError,
};
use message_board::store::{PostMessage, PostUser, Store, StoreError};
use message_board::time::{now_timestamp, Timestamp};
use message_board::wire::{MessageJson, UserJson};

fn ts(secs: i64) -> Timestamp {
    Timestamp { secs, nanos: 0 }
}

fn body_bytes(title: &str, content: &str) -> Vec<u8> {
    let mut object = serde_json::Map::new();
    object.insert(
        String::from("title"),
        serde_json::Value::String(String::from(title)),
    );
    object.insert(
        String::from("content"),
        serde_json::Value::String(String::from(content)),
    );
    serde_json::Value::Object(object).to_string().into_bytes()
}

fn seeded(n: i32) -> Store {
    let mut s = Store::new();
    let _ = s.insert_user(PostUser {
        id: 1,
        name: String::from("Seed"),
        register_date: ts(1),
    });
    for i in 1..=n {
        let r = s.insert_message(PostMessage {
            id: i,
            user: 1,
            title: format!("title {}", i),
            content: format!("content {}", i),
            pub_date: ts(i as i64),
        });
        assert!(r.is_ok());
    }
    s
}

#[test]
fn empty_store_lists_empty() {
    let s = Store::new();
    let r = list(&s, None, None).unwrap();
    assert!(r.is_empty());
}

#[test]
fn pagination_window() {
    let s = seeded(5);
    let r = list(&s, Some("2"), Some("1")).unwrap();
    assert_eq!(r.len(), 2);
    assert_eq!(r[0].id, 2);
    assert_eq!(r[1].id, 3);
    assert_eq!(r[0].title, "title 2");
}

#[test]
fn pagination_limit_zero() {
    let s = seeded(3);
    let r = list(&s, Some("0"), None).unwrap();
    assert!(r.is_empty());
}

#[test]
fn pagination_offset_past_end() {
    let s = seeded(3);
    let r = list(&s, Some("10"), Some("3")).unwrap();
    assert!(r.is_empty());
    let r = list(&s, Some("10"), Some("100")).unwrap();
    assert!(r.is_empty());
}

#[test]
fn pagination_defaults() {
    let s = seeded(5);
    let r = list(&s, None, None).unwrap();
    assert_eq!(r.len(), 5);
    let ids: Vec<i32> = r.iter().map(|m| m.id).collect();
    assert_eq!(ids, vec![1, 2, 3, 4, 5]);
}

#[test]
fn pagination_limit_truncates() {
    let s = seeded(5);
    let r = list(&s, Some("4"), None).unwrap();
    assert_eq!(r.len(), 4);
}

#[test]
fn list_rejects_bad_limit() {
    let s = seeded(2);
    for bad in ["abc", "-1", "", "4294967296", " 1", "1.5"] {
        let r = list(&s, Some(bad), None);
        assert_eq!(
            r,
            Err(ServiceError::BadRequest(BadRequestKind::InvalidLimit)),
            "limit {:?} should be rejected",
            bad
        );
    }
}

#[test]
fn list_rejects_bad_offset() {
    let s = seeded(2);
    let r = list(&s, Some("10"), Some("x"));
    assert_eq!(r, Err(ServiceError::BadRequest(BadRequestKind::InvalidOffset)));
}

#[test]
fn list_checks_limit_before_offset() {
    let s = seeded(2);
    let r = list(&s, Some("bad"), Some("also bad"));
    assert_eq!(r, Err(ServiceError::BadRequest(BadRequestKind::InvalidLimit)));
}

#[test]
fn list_accepts_plus_sign_and_leading_zeros() {
    let s = seeded(5);
    let r = list(&s, Some("+2"), Some("03")).unwrap();
    assert_eq!(r.len(), 2);
    assert_eq!(r[0].id, 4);
}

#[test]
fn list_twice_same_result() {
    let s = seeded(4);
    let r1 = list(&s, Some("3"), Some("1")).unwrap();
    let r2 = list(&s, Some("3"), Some("1")).unwrap();
    assert_eq!(r1, r2);
}

#[test]
fn first_post_creates_user_and_message() {
    let mut s = Store::new();
    let body = body_bytes("hello", "world");
    let receipt = post_at(&mut s, Some("NewPerson"), &body, ts(9)).unwrap();
    assert_eq!(
        receipt,
        Receipt {
            message_id: 1,
            author_id: 1
        }
    );
    assert_eq!(s.users.len(), 1);
    assert_eq!(s.users[0].name, "NewPerson");
    assert_eq!(s.messages.len(), 1);
    assert_eq!(s.messages[0].user, s.users[0].id);
    assert_eq!(s.messages[0].title, "hello");
    assert_eq!(s.messages[0].content, "world");
}

#[test]
fn second_post_reuses_user_row() {
    let mut s = Store::new();
    let r1 = post_at(&mut s, Some("NewPerson"), &body_bytes("a", "b"), ts(1));
    let r2 = post_at(&mut s, Some("NewPerson"), &body_bytes("c", "d"), ts(2));
    assert!(r1.is_ok() && r2.is_ok());
    assert_eq!(s.users.len(), 1);
    assert_eq!(s.messages.len(), 2);
    assert_eq!(s.messages[0].user, s.messages[1].user);
    assert_eq!(s.messages[0].id, 1);
    assert_eq!(s.messages[1].id, 2);
}

#[test]
fn oversized_fields_leave_store_unchanged() {
    let mut s = seeded(2);
    let users_before = s.users.len();
    let messages_before = s.messages.len();
    let long_title = "t".repeat(101);
    let r = post_at(&mut s, Some("Seed"), &body_bytes(&long_title, "fine"), ts(9));
    assert_eq!(r, Err(ServiceError::BadRequest(BadRequestKind::TitleTooLong)));
    let long_content = "c".repeat(401);
    let r = post_at(&mut s, Some("Seed"), &body_bytes("fine", &long_content), ts(9));
    assert_eq!(
        r,
        Err(ServiceError::BadRequest(BadRequestKind::ContentTooLong))
    );
    assert_eq!(s.users.len(), users_before);
    assert_eq!(s.messages.len(), messages_before);
}

#[test]
fn title_checked_before_content() {
    let mut s = seeded(1);
    let long_title = "t".repeat(101);
    let long_content = "c".repeat(401);
    let r = post_at(
        &mut s,
        Some("Seed"),
        &body_bytes(&long_title, &long_content),
        ts(9),
    );
    assert_eq!(r, Err(ServiceError::BadRequest(BadRequestKind::TitleTooLong)));
}

#[test]
fn boundary_lengths_accepted() {
    let mut s = Store::new();
    let title = "t".repeat(100);
    let content = "c".repeat(400);
    let name = "n".repeat(20);
    let r = post_at(&mut s, Some(name.as_str()), &body_bytes(&title, &content), ts(9));
    assert!(r.is_ok());
    assert_eq!(s.messages.len(), 1);
}

#[test]
fn long_name_writes_nothing() {
    let mut s = Store::new();
    let name = "n".repeat(21);
    let r = post_at(&mut s, Some(name.as_str()), &body_bytes("a", "b"), ts(9));
    assert_eq!(r, Err(ServiceError::BadRequest(BadRequestKind::NameTooLong)));
    assert!(s.users.is_empty());
    assert!(s.messages.is_empty());
}

#[test]
fn validate_exact_boundaries() {
    let ok_title = "t".repeat(100);
    let ok_content = "c".repeat(400);
    assert_eq!(validate(&ok_title, &ok_content), Ok(()));
    let long_title = "t".repeat(101);
    assert_eq!(
        validate(&long_title, &ok_content),
        Err(ValidationError::TitleTooLong)
    );
    let long_content = "c".repeat(401);
    assert_eq!(
        validate(&ok_title, &long_content),
        Err(ValidationError::ContentTooLong)
    );
}

#[test]
fn malformed_bodies_rejected() {
    let mut s = seeded(1);
    let messages_before = s.messages.len();
    let users_before = s.users.len();
    let cases: Vec<Vec<u8>> = vec![
        vec![0xff, 0xfe, b'a'],
        b"not json at all".to_vec(),
        b"{}".to_vec(),
        b"{\"title\": 5, \"content\": \"x\"}".to_vec(),
        b"[\"title\", \"content\"]".to_vec(),
        b"".to_vec(),
    ];
    for raw in cases {
        let r = post_at(&mut s, Some("Seed"), &raw, ts(9));
        assert_eq!(
            r,
            Err(ServiceError::BadRequest(BadRequestKind::MalformedBody))
        );
    }
    assert_eq!(s.messages.len(), messages_before);
    assert_eq!(s.users.len(), users_before);
}

#[test]
fn purge_clears_messages_keeps_users() {
    let mut s = seeded(4);
    let users_before = s.users.len();
    let r = purge_all_messages(&mut s);
    assert_eq!(r, Ok(()));
    let listed = list(&s, None, None).unwrap();
    assert!(listed.is_empty());
    assert_eq!(s.users.len(), users_before);
    // posting afterwards starts the message ids over
    let receipt = post_at(&mut s, Some("Seed"), &body_bytes("a", "b"), ts(9)).unwrap();
    assert_eq!(receipt.message_id, 1);
}

#[test]
fn missing_cookie_posts_as_unknown() {
    let mut s = Store::new();
    let r1 = post_at(&mut s, None, &body_bytes("a", "b"), ts(1));
    assert!(r1.is_ok());
    let unknown = s.find_user_by_name("Unknown");
    assert!(unknown.is_some());
    let r2 = post_at(&mut s, None, &body_bytes("c", "d"), ts(2));
    assert!(r2.is_ok());
    assert_eq!(s.users.len(), 1);
    assert_eq!(s.messages.len(), 2);
}

#[test]
fn post_stamps_current_time() {
    let mut s = Store::new();
    let before = now_timestamp();
    let r = post(&mut s, Some("Someone"), &body_bytes("a", "b"));
    assert!(r.is_ok());
    assert_eq!(s.messages.len(), 1);
    assert!(s.messages[0].pub_date.secs >= before.secs);
}

#[test]
fn timestamps_render_as_calendar_text() {
    let mut s = Store::new();
    let r = post_at(&mut s, Some("Renderer"), &body_bytes("a", "b"), ts(0));
    assert!(r.is_ok());
    let listed = list(&s, None, None).unwrap();
    assert_eq!(listed[0].pub_date, "1970-01-01 00:00:00");
    let r = post_at(&mut s, Some("Renderer"), &body_bytes("c", "d"), ts(1431648000));
    assert!(r.is_ok());
    let listed = list(&s, None, None).unwrap();
    assert_eq!(listed[1].pub_date, "2015-05-15 00:00:00");
}

#[test]
fn user_json_renders_register_date() {
    let u = PostUser {
        id: 7,
        name: String::from("Alice"),
        register_date: ts(0),
    };
    let j = UserJson::of_user(&u);
    assert_eq!(j.id, 7);
    assert_eq!(j.name, "Alice");
    assert_eq!(j.register_date, "1970-01-01 00:00:00");
}

#[test]
fn message_json_carries_fields_over() {
    let m = PostMessage {
        id: 3,
        user: 9,
        title: String::from("Tïtle"),
        content: String::from("Contént"),
        pub_date: ts(0),
    };
    let j = MessageJson::of_message(&m);
    assert_eq!(j.id, 3);
    assert_eq!(j.user, 9);
    assert_eq!(j.title, "Tïtle");
    assert_eq!(j.content, "Contént");
}

#[test]
fn unicode_body_survives_the_write_path() {
    let mut s = Store::new();
    let r = post_at(&mut s, Some("Üser"), &body_bytes("héllo \"quoted\"", "wörld\nline"), ts(5));
    assert!(r.is_ok());
    assert_eq!(s.messages[0].title, "héllo \"quoted\"");
    assert_eq!(s.messages[0].content, "wörld\nline");
    assert!(s.find_user_by_name("Üser").is_some());
}

#[test]
fn message_id_exhaustion_is_persistence() {
    let mut s = Store::new();
    let _ = s.insert_user(PostUser {
        id: 1,
        name: String::from("Seed"),
        register_date: ts(1),
    });
    let r = s.insert_message(PostMessage {
        id: i32::MAX,
        user: 1,
        title: String::from("t"),
        content: String::from("c"),
        pub_date: ts(1),
    });
    assert_eq!(r, Ok(()));
    let r = post_at(&mut s, Some("Seed"), &body_bytes("a", "b"), ts(9));
    assert_eq!(r, Err(ServiceError::Persistence));
    assert_eq!(s.messages.len(), 1);
}

#[test]
fn user_id_exhaustion_is_persistence() {
    let mut s = Store::new();
    let r = s.insert_user(PostUser {
        id: i32::MAX,
        name: String::from("Last"),
        register_date: ts(1),
    });
    assert_eq!(r, Ok(()));
    let r = post_at(&mut s, Some("Fresh"), &body_bytes("a", "b"), ts(9));
    assert_eq!(r, Err(ServiceError::Persistence));
    assert_eq!(s.users.len(), 1);
    assert!(s.messages.is_empty());
}

#[test]
fn store_rejects_non_increasing_ids() {
    let mut s = Store::new();
    let mk = |id: i32| PostMessage {
        id,
        user: 1,
        title: String::from("t"),
        content: String::from("c"),
        pub_date: ts(1),
    };
    assert_eq!(s.insert_message(mk(5)), Ok(()));
    assert_eq!(s.insert_message(mk(3)), Err(StoreError::QueryFailed));
    assert_eq!(s.insert_message(mk(5)), Err(StoreError::QueryFailed));
    assert_eq!(s.insert_message(mk(6)), Ok(()));
    assert_eq!(s.messages.len(), 2);
}

#[test]
fn max_ids_on_empty_store() {
    let s = Store::new();
    assert_eq!(s.max_user_id(), None);
    assert_eq!(s.max_message_id(), None);
    let s = seeded(3);
    assert_eq!(s.max_user_id(), Some(1));
    assert_eq!(s.max_message_id(), Some(3));
}

#[test]
fn find_user_returns_first_match() {
    let mut s = Store::new();
    let _ = s.insert_user(PostUser {
        id: 1,
        name: String::from("Twin"),
        register_date: ts(1),
    });
    let _ = s.insert_user(PostUser {
        id: 2,
        name: String::from("Twin"),
        register_date: ts(2),
    });
    let found = s.find_user_by_name("Twin").unwrap();
    assert_eq!(found.id, 1);
    assert!(s.find_user_by_name("Nobody").is_none());
}

#[test]
fn store_well_formedness_check() {
    let s = seeded(3);
    assert!(s.is_wf());
    let mut broken = Store::new();
    broken.users.push(PostUser {
        id: 2,
        name: String::from("A"),
        register_date: ts(1),
    });
    broken.users.push(PostUser {
        id: 1,
        name: String::from("B"),
        register_date: ts(1),
    });
    assert!(!broken.is_wf());
}

#[test]
fn rejected_posts_from_unseen_names_write_nothing() {
    let mut s = seeded(2);
    let users_before = s.users.len();
    let messages_before = s.messages.len();
    // an oversized field: rejected before the unseen name creates a row
    let long_title = "t".repeat(101);
    let r = post_at(&mut s, Some("Stranger"), &body_bytes(&long_title, "fine"), ts(9));
    assert_eq!(r, Err(ServiceError::BadRequest(BadRequestKind::TitleTooLong)));
    // a body that does not parse: likewise
    let r = post_at(&mut s, Some("Stranger"), &[0xff, 0xfe], ts(9));
    assert_eq!(
        r,
        Err(ServiceError::BadRequest(BadRequestKind::MalformedBody))
    );
    let r = post_at(&mut s, Some("Stranger"), b"{}", ts(9));
    assert_eq!(
        r,
        Err(ServiceError::BadRequest(BadRequestKind::MalformedBody))
    );
    assert_eq!(s.users.len(), users_before);
    assert_eq!(s.messages.len(), messages_before);
    assert!(s.find_user_by_name("Stranger").is_none());
}

#[test]
fn name_length_checked_before_body() {
    let mut s = Store::new();
    let name = "n".repeat(21);
    // the name bound wins over a body that would also be rejected
    let r = post_at(&mut s, Some(name.as_str()), b"not json", ts(9));
    assert_eq!(r, Err(ServiceError::BadRequest(BadRequestKind::NameTooLong)));
    assert!(s.users.is_empty());
    assert!(s.messages.is_empty());
}

#[test]
fn timestamp_bounds() {
    assert!(Timestamp { secs: 0, nanos: 0 }.is_wf());
    assert!(Timestamp { secs: 1431648000, nanos: 999_999_999 }.is_wf());
    // nanoseconds must stay below one whole second
    assert!(!Timestamp { secs: 0, nanos: 1_500_000_000 }.is_wf());
    assert!(!Timestamp { secs: -1, nanos: 0 }.is_wf());
}
