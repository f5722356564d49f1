use shorts::agent::UserAgent;
use shorts::db::{
    create_db, create_link, create_user, delete_link, get_all_links, get_link,
    get_total_hit_count, get_user_profile, get_user_profile_by_id, insert_user, issue_session,
    resolve_session, revoke_session, write_hit, Store, StoreError, DEFAULT_HASH_COST,
};
use shorts::users::{authenticated_user, hash_password, validate_login, verify_password};
use shorts::views::{
    get_flash_string, handle_link, handle_link_delete, handle_login, handle_logout,
    handle_notfound, handle_register, handle_submit, index, index_admin, CreateAccountFormSubmission,
    Flash, FlashKind, LinkFormSubmission, LoginFormSubmission, Message, SessionChange, Target,
};

const FAST: u32 = 4;

fn unix_now() -> i64 {
    std::time::SystemTime::now()
        .duration_since(std::time::UNIX_EPOCH)
        .unwrap()
        .as_secs() as i64
}

fn hit_count(store: &Store, short: &str) -> u64 {
    get_link(store, short).unwrap().hit_count
}

#[test]
fn fresh_store_is_empty() {
    let store = create_db();
    assert!(get_all_links(&store).is_empty());
    assert_eq!(get_total_hit_count(&store), 0);
    assert_eq!(DEFAULT_HASH_COST, 12);
}

#[test]
fn created_link_is_found() {
    let mut store = Store::with_cost(FAST);
    assert!(create_link(&mut store, "ex", "https://example.com"));
    let link = get_link(&store, "ex").unwrap();
    assert_eq!(link.short, "ex");
    assert_eq!(link.original, "https://example.com");
    assert_eq!(link.hit_count, 0);
}

#[test]
fn duplicate_short_is_refused() {
    let mut store = Store::with_cost(FAST);
    assert!(create_link(&mut store, "ex", "https://example.com"));
    assert!(!create_link(&mut store, "ex", "https://other.org"));
    let all = get_all_links(&store);
    assert_eq!(all.len(), 1);
    assert_eq!(all[0].original, "https://example.com");
}

#[test]
fn links_are_listed_in_insertion_order_with_counts() {
    let mut store = Store::with_cost(FAST);
    assert!(create_link(&mut store, "b", "https://b.example"));
    assert!(create_link(&mut store, "a", "https://a.example"));
    let a = get_link(&store, "a").unwrap();
    assert!(write_hit(&mut store, a.id, None, 10));
    assert!(write_hit(&mut store, a.id, Some(String::from("curl")), 11));
    let all = get_all_links(&store);
    assert_eq!(all.len(), 2);
    assert_eq!(all[0].short, "b");
    assert_eq!(all[0].hit_count, 0);
    assert_eq!(all[1].short, "a");
    assert_eq!(all[1].hit_count, 2);
    assert!(all[0].id < all[1].id);
    assert_eq!(get_total_hit_count(&store), 2);
}

#[test]
fn hit_for_unknown_link_is_refused() {
    let mut store = Store::with_cost(FAST);
    assert!(!write_hit(&mut store, 42, None, 10));
    assert_eq!(get_total_hit_count(&store), 0);
}

#[test]
fn unknown_token_redirects_to_not_found() {
    let mut store = Store::with_cost(FAST);
    let target = handle_link(&mut store, "nope", UserAgent::from_header(None), 5);
    assert!(matches!(target, Target::NotFound));
    assert_eq!(get_total_hit_count(&store), 0);
    assert_eq!(handle_notfound(), "The specified shortlink was not found.");
}

#[test]
fn resolving_counts_one_hit() {
    let mut store = Store::with_cost(FAST);
    assert!(create_link(&mut store, "ex", "https://example.com"));
    let before = unix_now();
    let now = unix_now();
    let target = handle_link(&mut store, "ex", UserAgent::from_header(Some("firefox")), now);
    let after = unix_now();
    match target {
        Target::Url(u) => assert_eq!(u, "https://example.com"),
        _ => panic!("expected a redirect to the link"),
    }
    assert_eq!(hit_count(&store, "ex"), 1);
    assert!(before <= now && now <= after);
    let target = handle_link(&mut store, "ex", UserAgent::from_header(None), now + 1);
    assert!(matches!(target, Target::Url(_)));
    assert_eq!(hit_count(&store, "ex"), 2);
    assert_eq!(get_total_hit_count(&store), 2);
}

#[test]
fn delete_missing_reports_zero() {
    let mut store = Store::with_cost(FAST);
    assert!(create_link(&mut store, "ex", "https://example.com"));
    assert_eq!(delete_link(&mut store, "missing"), 0);
    assert_eq!(delete_link(&mut store, "ex"), 1);
    assert_eq!(delete_link(&mut store, "ex"), 0);
    assert!(get_link(&store, "ex").is_err());
}

#[test]
fn deleted_token_can_be_reused() {
    let mut store = Store::with_cost(FAST);
    assert!(create_link(&mut store, "ex", "https://example.com"));
    let first = get_link(&store, "ex").unwrap();
    assert!(write_hit(&mut store, first.id, None, 1));
    assert_eq!(delete_link(&mut store, "ex"), 1);
    assert!(create_link(&mut store, "ex", "https://new.example"));
    let second = get_link(&store, "ex").unwrap();
    assert!(second.id > first.id);
    assert_eq!(second.hit_count, 0);
    assert_eq!(second.original, "https://new.example");
}

#[test]
fn register_twice_conflicts() {
    let mut store = Store::with_cost(FAST);
    let email = String::from("a@x.com");
    let first = create_user(&mut store, &email, &String::from("pw")).unwrap();
    assert_eq!(first.email, "a@x.com");
    assert_ne!(first.hash, "pw");
    let second = create_user(&mut store, &email, &String::from("other"));
    assert!(matches!(second, Err(StoreError::Duplicate)));
    let stored = get_user_profile(&store, &email).unwrap();
    assert_eq!(stored.hash, first.hash);
    assert!(validate_login(&stored, &String::from("pw")));
    assert!(!validate_login(&stored, &String::from("other")));
}

#[test]
fn missing_user_is_not_found() {
    let store = Store::with_cost(FAST);
    assert!(matches!(get_user_profile_by_id(&store, 1), Err(StoreError::NotFound)));
    assert!(matches!(
        get_user_profile(&store, &String::from("nobody@x.com")),
        Err(StoreError::NotFound)
    ));
    assert_eq!(StoreError::NotFound.message(), "Could not retrieve user details!");
    assert_eq!(StoreError::Duplicate.message(), "This user already exists!");
}

#[test]
fn inserted_user_is_found_by_id_and_email() {
    let mut store = Store::with_cost(FAST);
    let email = String::from("b@x.com");
    let user = insert_user(&mut store, &email, String::from("stored-hash")).unwrap();
    let by_id = get_user_profile_by_id(&store, user.id).unwrap();
    assert_eq!(by_id.email, "b@x.com");
    assert_eq!(by_id.hash, "stored-hash");
    let again = insert_user(&mut store, &email, String::from("x"));
    assert!(matches!(again, Err(StoreError::Duplicate)));
}

#[test]
fn hashed_password_verifies() {
    let hash = hash_password("hunter2", FAST).unwrap();
    assert_ne!(hash, "hunter2");
    assert!(hash.starts_with("$2"));
    assert!(verify_password("hunter2", &hash));
    assert!(!verify_password("hunter3", &hash));
    assert!(!verify_password("", &hash));
}

#[test]
fn malformed_hash_matches_nothing() {
    assert!(!verify_password("pw", "not a hash"));
    assert!(!verify_password("pw", ""));
}

#[test]
fn session_resolves_to_its_user_until_revoked() {
    let mut store = Store::with_cost(FAST);
    let x = insert_user(&mut store, &String::from("x@x.com"), String::from("h")).unwrap();
    let y = insert_user(&mut store, &String::from("y@x.com"), String::from("h")).unwrap();
    assert!(issue_session(&mut store, x.id, String::from("tok-x"), 100));
    assert!(issue_session(&mut store, y.id, String::from("tok-y"), 100));
    assert!(!issue_session(&mut store, y.id, String::from("tok-x"), 100));
    assert_eq!(resolve_session(&store, "tok-x", 50), Some(x.id));
    assert_eq!(resolve_session(&store, "tok-y", 50), Some(y.id));
    assert_eq!(resolve_session(&store, "tok-x", 100), None);
    assert_eq!(resolve_session(&store, "tok-z", 50), None);
    assert!(revoke_session(&mut store, "tok-x"));
    assert!(!revoke_session(&mut store, "tok-x"));
    assert_eq!(resolve_session(&store, "tok-x", 50), None);
    assert_eq!(resolve_session(&store, "tok-y", 50), Some(y.id));
}

#[test]
fn session_for_unknown_user_is_refused() {
    let mut store = Store::with_cost(FAST);
    assert!(!issue_session(&mut store, 7, String::from("tok"), 100));
    assert_eq!(resolve_session(&store, "tok", 0), None);
}

#[test]
fn authenticated_user_comes_from_the_token() {
    let mut store = Store::with_cost(FAST);
    let x = insert_user(&mut store, &String::from("x@x.com"), String::from("h")).unwrap();
    assert!(issue_session(&mut store, x.id, String::from("tok"), 100));
    assert_eq!(authenticated_user(&store, Some("tok"), 1).map(|u| u.0), Some(x.id));
    assert!(authenticated_user(&store, Some("bad"), 1).is_none());
    assert!(authenticated_user(&store, None, 1).is_none());
}

#[test]
fn user_agent_header_is_kept() {
    assert_eq!(UserAgent::from_header(Some("curl/8")).ua, Some(String::from("curl/8")));
    assert_eq!(UserAgent::from_header(None).ua, None);
}

#[test]
fn mutations_need_a_user() {
    let mut store = Store::with_cost(FAST);
    let form = LinkFormSubmission { url: String::from("https://e.com"), short: String::from("e") };
    let r = handle_submit(&mut store, &form, None);
    assert_eq!(r.flash, Some(Flash { kind: FlashKind::Error, msg: Message::LoginRequired }));
    assert!(get_link(&store, "e").is_err());
    assert!(create_link(&mut store, "e", "https://e.com"));
    let r = handle_link_delete(&mut store, "e", None);
    assert_eq!(r.flash, Some(Flash { kind: FlashKind::Error, msg: Message::LoginRequired }));
    assert!(get_link(&store, "e").is_ok());
}

#[test]
fn submit_of_taken_token_reports_error() {
    let mut store = Store::with_cost(FAST);
    let user = Some(shorts::users::UserID(1));
    let form = LinkFormSubmission { url: String::from("https://e.com"), short: String::from("e") };
    let r = handle_submit(&mut store, &form, user);
    assert_eq!(r.flash, Some(Flash { kind: FlashKind::Success, msg: Message::LinkCreated }));
    let r = handle_submit(&mut store, &form, Some(shorts::users::UserID(1)));
    assert_eq!(r.flash, Some(Flash { kind: FlashKind::Error, msg: Message::LinkRefused }));
}

#[test]
fn register_needs_the_invite() {
    let mut store = Store::with_cost(FAST);
    let form = CreateAccountFormSubmission {
        email: String::from("a@x.com"),
        password: String::from("pw"),
        invite: String::from("wrong"),
    };
    let r = handle_register(&mut store, &form, None, String::from("k"), 100);
    assert_eq!(r.flash, Some(Flash { kind: FlashKind::Error, msg: Message::NoInvite }));
    let r = handle_register(&mut store, &form, Some("secret"), String::from("k"), 100);
    assert_eq!(r.flash, Some(Flash { kind: FlashKind::Error, msg: Message::BadInvite }));
    assert!(matches!(r.session, SessionChange::Keep));
    assert!(get_user_profile(&store, &String::from("a@x.com")).is_err());
}

#[test]
fn login_with_bad_credentials_is_refused() {
    let mut store = Store::with_cost(FAST);
    let form = LoginFormSubmission { email: String::from("a@x.com"), password: String::from("pw") };
    let r = handle_login(&mut store, &form, String::from("k"), 100);
    assert_eq!(r.flash, Some(Flash { kind: FlashKind::Error, msg: Message::InvalidLogin }));
    create_user(&mut store, &String::from("a@x.com"), &String::from("right")).unwrap();
    let r = handle_login(&mut store, &form, String::from("k"), 100);
    assert_eq!(r.flash, Some(Flash { kind: FlashKind::Error, msg: Message::InvalidLogin }));
    assert!(matches!(r.session, SessionChange::Keep));
    assert_eq!(resolve_session(&store, "k", 0), None);
}

#[test]
fn login_with_good_credentials_starts_a_session() {
    let mut store = Store::with_cost(FAST);
    let u = create_user(&mut store, &String::from("a@x.com"), &String::from("pw")).unwrap();
    let form = LoginFormSubmission { email: String::from("a@x.com"), password: String::from("pw") };
    let r = handle_login(&mut store, &form, String::from("k1"), 100);
    assert_eq!(r.flash, None);
    assert!(matches!(r.session, SessionChange::Start(ref k) if k == "k1"));
    assert_eq!(resolve_session(&store, "k1", 0), Some(u.id));
    let r = handle_login(&mut store, &form, String::from("k1"), 100);
    assert_eq!(r.flash, Some(Flash { kind: FlashKind::Error, msg: Message::SessionRefused }));
}

#[test]
fn index_pages_show_links_and_user() {
    let mut store = Store::with_cost(FAST);
    let u = insert_user(&mut store, &String::from("a@x.com"), String::from("h")).unwrap();
    assert!(create_link(&mut store, "ex", "https://example.com"));
    let flash = Some(Flash { kind: FlashKind::Success, msg: Message::Deleted });
    let page = index(&store, flash);
    assert_eq!(page.all.len(), 1);
    assert!(page.user.is_none());
    assert_eq!(page.flash_msg, Some(String::from("Deleted successfully!")));
    let page = index_admin(&store, shorts::users::UserID(u.id), None);
    assert_eq!(page.user.unwrap().email, "a@x.com");
    assert_eq!(page.flash_msg, None);
    assert_eq!(page.total_hits, 0);
    let page = index_admin(&store, shorts::users::UserID(u.id + 5), None);
    assert!(page.user.is_none());
}

#[test]
fn flash_text_is_the_message() {
    assert_eq!(get_flash_string(None), None);
    let f = Flash { kind: FlashKind::Error, msg: Message::AccountRefused(StoreError::Duplicate) };
    assert_eq!(get_flash_string(Some(f)), Some(String::from("This user already exists!")));
    assert_eq!(Message::LoggedOut.text(), "Logged out successfully!");
}

#[test]
fn end_to_end_register_submit_follow_delete() {
    let mut store = Store::with_cost(FAST);
    let form = CreateAccountFormSubmission {
        email: String::from("a@x.com"),
        password: String::from("pw"),
        invite: String::from("letmein"),
    };
    let r = handle_register(&mut store, &form, Some("letmein"), String::from("sess"), 1_000);
    assert_eq!(r.flash, Some(Flash { kind: FlashKind::Success, msg: Message::AccountCreated }));
    let token = match r.session {
        SessionChange::Start(k) => k,
        _ => panic!("expected a session"),
    };
    let user = authenticated_user(&store, Some(&token), 10);
    assert!(user.is_some());

    let link = LinkFormSubmission { url: String::from("https://example.com"), short: String::from("ex") };
    let r = handle_submit(&mut store, &link, user);
    assert!(matches!(r.target, Target::Home));
    assert_eq!(r.flash, Some(Flash { kind: FlashKind::Success, msg: Message::LinkCreated }));

    match handle_link(&mut store, "ex", UserAgent::from_header(Some("test")), 20) {
        Target::Url(u) => assert_eq!(u, "https://example.com"),
        _ => panic!("expected a redirect to the link"),
    }
    assert_eq!(hit_count(&store, "ex"), 1);

    let user = authenticated_user(&store, Some(&token), 30);
    let r = handle_link_delete(&mut store, "ex", user);
    assert_eq!(r.flash, Some(Flash { kind: FlashKind::Success, msg: Message::Deleted }));
    assert!(matches!(
        handle_link(&mut store, "ex", UserAgent::from_header(None), 40),
        Target::NotFound
    ));

    let r = handle_logout(&mut store, Some(&token));
    assert!(matches!(r.session, SessionChange::Clear));
    assert_eq!(r.flash, Some(Flash { kind: FlashKind::Success, msg: Message::LoggedOut }));
    assert!(authenticated_user(&store, Some(&token), 50).is_none());
}

#[test]
fn register_duplicate_email_through_handler() {
    let mut store = Store::with_cost(FAST);
    let form = CreateAccountFormSubmission {
        email: String::from("a@x.com"),
        password: String::from("pw"),
        invite: String::from("code"),
    };
    let r = handle_register(&mut store, &form, Some("code"), String::from("s1"), 100);
    assert_eq!(r.flash, Some(Flash { kind: FlashKind::Success, msg: Message::AccountCreated }));
    let r = handle_register(&mut store, &form, Some("code"), String::from("s2"), 100);
    assert_eq!(
        r.flash,
        Some(Flash { kind: FlashKind::Error, msg: Message::AccountRefused(StoreError::Duplicate) })
    );
    assert_eq!(resolve_session(&store, "s2", 0), None);
}
