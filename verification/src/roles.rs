//! Role management: what each route answers, and whose sessions it ends.
//!
//! A role is a set of permissions, so whoever may edit one may hand out anything
//! it names. That is why these take administration over the whole server and not
//! over any particular database.
//!
//! Every edit that changes what a role is *worth* ends the cached sessions of
//! everyone who holds it. Without that, a narrowing edit would do nothing until
//! each holder's token expired. Creating a role cannot narrow anything, so it
//! ends none.

use vstd::prelude::*;
use vstd::string::*;

use crate::error::{forbidden, not_found, ApiError};
use crate::exec::scan::{json_size, size};
use crate::json::{json_items, json_members, json_view, Json, JsonView};
use crate::text::{debug_text, quoted};

verus! {

/// The status of a request that made something.
pub const CREATED: u16 = 201;

/// A role: its name, and its grants as they are written.
#[derive(Debug)]
pub struct Role {
    pub name: String,
    pub grants: Json,
}

/// A request to create a role.
#[derive(Debug)]
pub struct CreateRoleRequest {
    pub name: String,
    pub grants: Vec<Json>,
}

/// A request to replace a role's grants.
#[derive(Debug)]
pub struct GrantsRequest {
    pub grants: Vec<Json>,
}

/// A request to replace the roles a user holds.
#[derive(Debug)]
pub struct RolesRequest {
    pub roles: Vec<String>,
}

/// What a route answers, and whose cached sessions it ends before it does.
#[derive(Debug)]
pub struct RoleEdit {
    pub body: Json,
    pub evict: Vec<String>,
}

/// The scope required to administer roles.
pub fn require_server_admin(administers_all: bool) -> (answer: Result<(), ApiError>)
    ensures
        administers_all ==> answer is Ok,
        !administers_all ==> answer is Err && answer->Err_0@ == forbidden(),
{
    if administers_all {
        Ok(())
    } else {
        Err(ApiError::forbidden())
    }
}

/// A role in a response.
pub open spec fn role_view(name: Seq<char>, grants: JsonView) -> JsonView {
    JsonView::Object(seq![("role"@, JsonView::String(name)), ("grants"@, grants)])
}

fn role_to_json(role: Role) -> (body: Json)
    ensures
        body@ == role_view(role.name@, role.grants@),
{
    broadcast use json_view;

    let ghost expected = role_view(role.name@, role.grants@);
    let body: Vec<(String, Json)> = vec![
        ("role".to_owned(), Json::String(role.name)),
        ("grants".to_owned(), role.grants),
    ];
    assert(json_members(body@) =~= expected->Object_0);
    Json::Object(body)
}

/// The answer to the creation of a role: its status and body.
pub fn create_role(role: Role) -> (answer: (u16, Json))
    ensures
        answer.0 == CREATED,
        answer.1@ == role_view(role.name@, role.grants@),
{
    (CREATED, role_to_json(role))
}

/// The roles there are.
pub fn list_roles(roles: Vec<Json>) -> (body: Json)
    ensures
        body@ == JsonView::Object(seq![("roles"@, JsonView::Array(json_items(roles@)))]),
{
    broadcast use json_view;

    let ghost expected = seq![("roles"@, JsonView::Array(json_items(roles@)))];
    let body: Vec<(String, Json)> = vec![("roles".to_owned(), Json::Array(roles))];
    assert(json_members(body@) =~= expected);
    Json::Object(body)
}

/// One role, or that there is none of that name.
pub fn get_role(name: &str, found: Option<Role>) -> (answer: Result<Json, ApiError>)
    ensures
        match (answer, found) {
            (Ok(body), Some(role)) => body@ == role_view(role.name@, role.grants@),
            (Err(e), None) => e@ == not_found("no role "@ + quoted(name@)),
            _ => false,
        },
{
    match found {
        Some(role) => Ok(role_to_json(role)),
        None => {
            let mut text = "no role ".to_owned();
            text.append(debug_text(name).as_str());
            Err(ApiError::not_found(text.as_str()))
        },
    }
}

/// The answer to the deletion of a role, whose holders' sessions end. They keep
/// the name on their record, where it now grants nothing: that is what lets a
/// deletion sent again reach them.
pub fn delete_role(deleted: bool, holders: Vec<String>) -> (edit: RoleEdit)
    ensures
        edit.evict == holders,
        edit.body@ == JsonView::Object(
            seq![
                ("deleted"@, JsonView::Bool(deleted)),
                ("invalidated"@, size(holders@.len() as usize)),
            ],
        ),
{
    broadcast use json_view;

    let body: Vec<(String, Json)> = vec![
        ("deleted".to_owned(), Json::Bool(deleted)),
        ("invalidated".to_owned(), json_size(holders.len())),
    ];
    assert(json_members(body@) =~= seq![
        ("deleted"@, JsonView::Bool(deleted)),
        ("invalidated"@, size(holders@.len() as usize)),
    ]);
    RoleEdit { body: Json::Object(body), evict: holders }
}

/// The answer to new grants for a role, whose holders' sessions end.
pub fn set_role_grants(name: &str, holders: Vec<String>) -> (edit: RoleEdit)
    ensures
        edit.evict == holders,
        edit.body@ == JsonView::Object(
            seq![
                ("updated"@, JsonView::String(name@)),
                ("invalidated"@, size(holders@.len() as usize)),
            ],
        ),
{
    broadcast use json_view;

    let body: Vec<(String, Json)> = vec![
        ("updated".to_owned(), Json::String(name.to_owned())),
        ("invalidated".to_owned(), json_size(holders.len())),
    ];
    assert(json_members(body@) =~= seq![
        ("updated"@, JsonView::String(name@)),
        ("invalidated"@, size(holders@.len() as usize)),
    ]);
    RoleEdit { body: Json::Object(body), evict: holders }
}

/// The answer to new roles for one user, whose own sessions end. A name that
/// matches no role is accepted: it grants nothing.
pub fn set_user_roles(name: &str) -> (edit: RoleEdit)
    ensures
        edit.evict@.len() == 1,
        edit.evict@[0]@ == name@,
        edit.body@ == JsonView::Object(seq![("updated"@, JsonView::String(name@))]),
{
    broadcast use json_view;

    let body: Vec<(String, Json)> = vec![("updated".to_owned(), Json::String(name.to_owned()))];
    assert(json_members(body@) =~= seq![("updated"@, JsonView::String(name@))]);
    RoleEdit { body: Json::Object(body), evict: vec![name.to_owned()] }
}

} // verus!
