use kimmy_api::codec::to_text;
use kimmy_api::error::ErrorCode;
use kimmy_api::json::Json;
use kimmy_api::roles::{
    create_role, delete_role, get_role, list_roles, require_server_admin, set_role_grants,
    set_user_roles, Role,
};

fn role() -> Role {
    Role { name: "analyst".to_string(), grants: Json::Array(vec![]) }
}

#[test]
fn only_an_administrator_of_everything_edits_roles() {
    assert!(require_server_admin(true).is_ok());
    let e = require_server_admin(false).unwrap_err();
    assert_eq!((e.status, e.code), (403, ErrorCode::Forbidden));
}

#[test]
fn a_created_role_is_answered_with_its_grants() {
    let (status, body) = create_role(role());
    assert_eq!(status, 201);
    assert_eq!(to_text(&body), "{\"role\":\"analyst\",\"grants\":[]}");
    assert_eq!(to_text(&list_roles(vec![Json::Null])), "{\"roles\":[null]}");
}

#[test]
fn a_role_that_is_not_there_is_named() {
    assert_eq!(
        to_text(&get_role("analyst", Some(role())).unwrap()),
        "{\"role\":\"analyst\",\"grants\":[]}"
    );
    let e = get_role("a\"b", None).unwrap_err();
    assert_eq!((e.status, e.code), (404, ErrorCode::NotFound));
    assert_eq!(e.message, "no role \"a\\\"b\"");
}

#[test]
fn an_edit_ends_the_sessions_of_everyone_who_holds_the_role() {
    let holders = vec!["ada".to_string(), "bob".to_string()];
    let edit = set_role_grants("analyst", holders.clone());
    assert_eq!(edit.evict, holders);
    assert_eq!(to_text(&edit.body), "{\"updated\":\"analyst\",\"invalidated\":2}");

    let edit = delete_role(false, holders.clone());
    assert_eq!(edit.evict, holders, "a delete sent again still reaches them");
    assert_eq!(to_text(&edit.body), "{\"deleted\":false,\"invalidated\":2}");

    let edit = set_user_roles("ada");
    assert_eq!(edit.evict, vec!["ada".to_string()]);
    assert_eq!(to_text(&edit.body), "{\"updated\":\"ada\"}");
}
