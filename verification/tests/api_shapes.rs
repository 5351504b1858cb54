use argent_auth::checklists::{
    check_access, check_not_last_owner, check_owner, AccessType, ChecklistItemRequest, UserAccess,
};
use argent_auth::cors::{Method, RouteSpec, CORS};
use argent_auth::error::{ArgentError, ErrorStatus, SimpleMessage};
use argent_auth::helpers::parse_uuid;
use argent_auth::v1::ApiV1Routes;

fn access(t: AccessType) -> UserAccess {
    UserAccess { id: b"u".to_vec(), name: String::from("u"), access_type: t }
}

#[test]
fn statuses_carry_their_codes() {
    assert_eq!(ArgentError::bad_request().status_code(), 400);
    assert_eq!(ArgentError::unauthorized().status_code(), 401);
    assert_eq!(ArgentError::forbidden().status_code(), 403);
    assert_eq!(ArgentError::not_found().status_code(), 404);
    assert_eq!(ArgentError::server_error().status_code(), 500);
    assert_eq!(ArgentError::unauthorized().msg, "Unauthorized");
    assert_eq!(ArgentError::from_status(ErrorStatus::NotFound).msg, "Not found");
    assert_eq!(SimpleMessage::ok().msg, "OK");
    assert_eq!(SimpleMessage::new("hello").msg, "hello");
}

#[test]
fn uuid_text_parses_to_its_bytes() {
    let ok = parse_uuid(&b"6fa459ea-ee8a-3ca4-894e-db77e160355e".to_vec(), ErrorStatus::BadRequest)
        .expect("well-formed identifier must parse");
    assert_eq!(
        ok,
        vec![0x6f, 0xa4, 0x59, 0xea, 0xee, 0x8a, 0x3c, 0xa4, 0x89, 0x4e, 0xdb, 0x77, 0xe1, 0x60,
            0x35, 0x5e]
    );
    // Upper case digits are accepted, as the stricter forms are.
    assert!(parse_uuid(&b"6FA459EA-EE8A-3CA4-894E-DB77E160355E".to_vec(), ErrorStatus::BadRequest)
        .is_ok());
    let bad_inputs: Vec<Vec<u8>> = vec![
        b"".to_vec(),
        b"6fa459ea".to_vec(),
        b"6fa459ea-ee8a-3ca4-894e-db77e160355g".to_vec(),
        b"6fa459eaee8a3ca4894edb77e160355e".to_vec(),
        b"6fa459ea-ee8a-3ca4-894e-db77e160355e-".to_vec(),
    ];
    for bad in bad_inputs {
        let err = parse_uuid(&bad, ErrorStatus::NotFound).unwrap_err();
        assert_eq!(err.status, ErrorStatus::NotFound);
    }
}

#[test]
fn access_rules_admit_the_right_grades() {
    assert!(check_access(AccessType::Owner).is_ok());
    assert!(check_access(AccessType::Editor).is_ok());
    assert_eq!(check_access(AccessType::NoAccess).unwrap_err().status, ErrorStatus::Forbidden);
    assert!(check_owner(AccessType::Owner).is_ok());
    assert_eq!(check_owner(AccessType::Editor).unwrap_err().status, ErrorStatus::Forbidden);
    assert_eq!(check_owner(AccessType::NoAccess).unwrap_err().status, ErrorStatus::Forbidden);
}

#[test]
fn the_last_owner_cannot_be_removed() {
    let one_owner = vec![access(AccessType::Owner), access(AccessType::Editor)];
    let err = check_not_last_owner(&one_owner).unwrap_err();
    assert_eq!(err.status, ErrorStatus::BadRequest);
    assert_eq!(err.msg, "cannot remove the last owner of a checklist");
    let two_owners = vec![access(AccessType::Owner), access(AccessType::Owner)];
    assert!(check_not_last_owner(&two_owners).is_ok());
    let no_owner = vec![access(AccessType::Editor)];
    assert!(check_not_last_owner(&no_owner).is_ok());
}

#[test]
fn item_requests_validate_their_checklist_identifier() {
    let good = ChecklistItemRequest {
        title: String::from("buy milk"),
        checklist: b"16fd2706-8baf-433b-82eb-8c7fada847da".to_vec(),
    };
    let item = good.get(b"new-item-id".to_vec(), 1700000000).expect("valid request");
    assert_eq!(item.title, "buy milk");
    assert!(!item.done);
    assert_eq!(item.created_at, 1700000000);
    assert_eq!(item.checklist.len(), 16);
    let bad = ChecklistItemRequest { title: String::from("x"), checklist: b"nope".to_vec() };
    let err = bad.get(b"id".to_vec(), 0).unwrap_err();
    assert_eq!(err.status, ErrorStatus::BadRequest);
}

#[test]
fn every_uri_gains_one_preflight_route() {
    let table = ApiV1Routes::get();
    // 16 mounted routes; /checklists and /checklists/<id> repeat once each,
    // so 14 distinct URIs gain an OPTIONS route.
    assert_eq!(table.len(), 16 + 14);
    let mounted = &table[..16];
    let options = &table[16..];
    for r in options {
        assert!(matches!(r.method, Method::Options));
        assert!(mounted.iter().any(|m| m.uri == r.uri));
    }
    for i in 0..options.len() {
        for j in 0..i {
            assert_ne!(options[i].uri, options[j].uri, "duplicate preflight uri");
        }
    }
    for m in mounted {
        assert!(options.iter().any(|o| o.uri == m.uri));
    }
    assert_eq!(mounted[12].uri, "/login");
    assert_eq!(mounted[13].uri, "/logout");
    assert_eq!(mounted[14].uri, "/me");
    assert_eq!(mounted[15].uri, "/users");
}

#[test]
fn preflight_routes_deduplicate_uris() {
    let routes = vec![
        RouteSpec { method: Method::Get, uri: String::from("/a") },
        RouteSpec { method: Method::Post, uri: String::from("/a") },
        RouteSpec { method: Method::Get, uri: String::from("/b") },
    ];
    let with_options = CORS::add_options_method(routes);
    assert_eq!(with_options.len(), 5);
    assert_eq!(with_options[3].uri, "/a");
    assert!(matches!(with_options[3].method, Method::Options));
    assert_eq!(with_options[4].uri, "/b");
    assert!(matches!(with_options[4].method, Method::Options));
}

#[test]
fn cors_origin_follows_the_deployment() {
    assert_eq!(CORS { debug: true }.allowed_origin(), "localhost:8008");
    assert_eq!(CORS { debug: false }.allowed_origin(), "https://argent.grimsborn.com");
}
