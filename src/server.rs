//! The router and the handlers' decisions. Each handler's outside work (a
//! query, a file read) is done by the caller; what to answer is decided
//! here, as the bytes of the response.

use vstd::prelude::*;
use vstd::string::StringExecFns;
use vstd::utf8::{decode_utf8, encode_utf8, valid_utf8};
use crate::auth::{check_login, login_match, user_views};
use crate::entity::{
    lemma_stored_tasks_list_back, objects_of, push_text_member, task_dates_wf, task_json,
    text_member, user_json, Sql, Task, TaskModel, User, UserModel,
};
use crate::request::{ascii, bytes_eq, copy_bytes, literal, Header, HttpError, Request};
use crate::response::{
    error_response, push_text, response_bytes, serve_200_json, serve_404_html, serve_error_json,
};
use crate::row::text_of;
use crate::session::{
    authenticated, authority_of, expiry_of, fresh_token, now_millis, records_after,
    token_of_text, token_text, token_text_of, SessionError, SessionStore, SessionUser,
};

verus! {

/// Where a request goes.
#[derive(Clone, Copy, Debug, PartialEq, Eq, Structural)]
pub enum Route {
    /// `GET /api/task`: the tasks of the session's user.
    ListTasks,
    /// `POST /api/task`: a new task for the session's user.
    CreateTask,
    /// `GET /api/user`: the session's user id.
    CurrentUser,
    /// `POST /api/user`: a new user.
    Register,
    /// `POST /api/login`: a new session.
    Login,
    /// Any other path under `/api/`.
    UnknownApi,
    /// Any path outside `/api/`: a file under the root.
    StaticFile,
}

pub open spec fn is_api_path(path: Seq<u8>) -> bool {
    path.len() >= 5 && path.subrange(0, 5) == ascii("/api/"@)
}

/// The route of a method and path: an exact match in the route table for
/// paths under `/api/`, a file for any other path.
pub open spec fn route_of(method: Seq<u8>, path: Seq<u8>) -> Route {
    if !is_api_path(path) {
        Route::StaticFile
    } else if method == ascii("GET"@) && path == ascii("/api/task"@) {
        Route::ListTasks
    } else if method == ascii("POST"@) && path == ascii("/api/task"@) {
        Route::CreateTask
    } else if method == ascii("GET"@) && path == ascii("/api/user"@) {
        Route::CurrentUser
    } else if method == ascii("POST"@) && path == ascii("/api/user"@) {
        Route::Register
    } else if method == ascii("POST"@) && path == ascii("/api/login"@) {
        Route::Login
    } else {
        Route::UnknownApi
    }
}

fn is_api(path: &[u8]) -> (r: bool)
    ensures
        r == is_api_path(path@),
{
    if path.len() < 5 {
        return false;
    }
    proof {
        reveal_strlit("/api/");
    }
    bytes_eq(&path[0..5], literal("/api/"))
}

/// Whether a request is `method path`.
fn is(req: &Request, method: &str, path: &str) -> (r: bool)
    requires
        vstd::string::is_ascii(method),
        vstd::string::is_ascii(path),
    ensures
        r == (req.method@ == ascii(method@) && req.path@ == ascii(path@)),
{
    bytes_eq(req.method.as_slice(), literal(method)) && bytes_eq(req.path.as_slice(), literal(path))
}

/// The route of a request.
pub fn route(req: &Request) -> (r: Route)
    ensures
        r == route_of(req.method@, req.path@),
{
    if !is_api(req.path.as_slice()) {
        return Route::StaticFile;
    }
    proof {
        reveal_strlit("GET");
        reveal_strlit("POST");
        reveal_strlit("/api/task");
        reveal_strlit("/api/user");
        reveal_strlit("/api/login");
    }
    if is(req, "GET", "/api/task") {
        Route::ListTasks
    } else if is(req, "POST", "/api/task") {
        Route::CreateTask
    } else if is(req, "GET", "/api/user") {
        Route::CurrentUser
    } else if is(req, "POST", "/api/user") {
        Route::Register
    } else if is(req, "POST", "/api/login") {
        Route::Login
    } else {
        Route::UnknownApi
    }
}

/// Whether a route serves only an authenticated session. Such a request is
/// authenticated before its body is read as JSON.
pub open spec fn needs_session(r: Route) -> bool {
    r == Route::ListTasks || r == Route::CreateTask || r == Route::CurrentUser
}

/// The error for a failure of the store on a route: the task routes answer
/// `InternalServerError`; registration and login answer `BadRequest`.
pub open spec fn store_error_of(r: Route) -> HttpError {
    if r == Route::Register || r == Route::Login {
        HttpError::BadRequest
    } else {
        HttpError::InternalServerError
    }
}

impl Route {
    /// Whether the route serves only an authenticated session.
    pub fn needs_session(&self) -> (r: bool)
        ensures
            r == needs_session(*self),
    {
        match self {
            Route::ListTasks | Route::CreateTask | Route::CurrentUser => true,
            _ => false,
        }
    }
}

/// The response to a failure of the store on `route`, with the store's own
/// message as the internal message.
pub fn serve_store_error(route: Route, message: &str) -> (r: Vec<u8>)
    ensures
        r@ == error_response(store_error_of(route), message@),
{
    match route {
        Route::Register | Route::Login => serve_error_json(HttpError::BadRequest, message),
        _ => serve_error_json(HttpError::InternalServerError, message),
    }
}

/// The response to a request whose body is not the JSON the route expects.
pub fn serve_bad_body(message: &str) -> (r: Vec<u8>)
    ensures
        r@ == error_response(HttpError::BadRequest, message@),
{
    serve_error_json(HttpError::BadRequest, message)
}

/// The text naming a route that is not in the table.
pub open spec fn unknown_route_text(method: Seq<u8>, path: Seq<u8>) -> Seq<u8> {
    ascii("No route for "@) + method + ascii(" "@) + path
}

/// The response to a path under `/api/` that no route matches: a 404 whose
/// internal message names the method and path.
pub open spec fn unknown_route_response(method: Seq<u8>, path: Seq<u8>) -> Seq<u8> {
    let t = unknown_route_text(method, path);
    error_response(
        HttpError::NotFound,
        if valid_utf8(t) {
            decode_utf8(t)
        } else {
            "No route for a request that is not UTF-8"@
        },
    )
}

/// Answers a path under `/api/` that no route matches.
pub fn serve_unknown_route(req: &Request) -> (r: Vec<u8>)
    ensures
        r@ == unknown_route_response(req.method@, req.path@),
{
    proof {
        reveal_strlit("No route for ");
        reveal_strlit(" ");
    }
    let mut t: Vec<u8> = Vec::new();
    t.extend_from_slice(literal("No route for "));
    t.extend_from_slice(req.method.as_slice());
    t.extend_from_slice(literal(" "));
    t.extend_from_slice(req.path.as_slice());
    assert(t@ =~= unknown_route_text(req.method@, req.path@));
    match text_of(t.as_slice()) {
        Some(s) => serve_error_json(HttpError::NotFound, s.as_str()),
        None => serve_error_json(HttpError::NotFound, "No route for a request that is not UTF-8"),
    }
}

/// The file that a path names: `/` stands for `/index.html`.
pub open spec fn static_target(path: Seq<u8>) -> Seq<u8> {
    if path == ascii("/"@) {
        ascii("/index.html"@)
    } else {
        path
    }
}

/// Whether a path holds `..`. Such a path could leave the root, and is
/// refused.
pub open spec fn climbs(path: Seq<u8>) -> bool {
    exists|i: int| 0 <= i < path.len() - 1 && path[i] == 46 && #[trigger] path[i + 1] == 46
}

/// The file that a request for `path` reads: the root followed by the
/// target, or nothing where the target climbs out of the root or is not
/// UTF-8.
pub open spec fn file_path_of(root: Seq<char>, path: Seq<u8>) -> Option<Seq<char>> {
    let t = static_target(path);
    if climbs(t) || !valid_utf8(t) {
        None
    } else {
        Some(root + decode_utf8(t))
    }
}

/// The target of a static request, as text, with the file path to read.
pub fn file_path(root: &str, path: &[u8]) -> (r: Option<(String, String)>)
    ensures
        match r {
            Some((target, file)) => file_path_of(root@, path@) == Some(file@) && encode_utf8(
                target@,
            ) == static_target(path@),
            None => file_path_of(root@, path@) is None,
        },
{
    proof {
        reveal_strlit("/");
        reveal_strlit("/index.html");
    }
    let target: Vec<u8> = if bytes_eq(path, literal("/")) {
        copy_bytes(literal("/index.html"))
    } else {
        copy_bytes(path)
    };
    let ghost t = target@;
    assert(t == static_target(path@));
    let mut i: usize = 0;
    while i < target.len() && target.len() - i > 1
        invariant
            t == target@,
            t == static_target(path@),
            i <= target@.len(),
            forall|j: int| 0 <= j < i ==> !(t[j] == 46 && #[trigger] t[j + 1] == 46),
        decreases target@.len() - i,
    {
        if target[i] == 46 && target[i + 1] == 46 {
            return None;
        }
        i = i + 1;
    }
    assert(!climbs(t)) by {
        if climbs(t) {
            let j = choose|j: int| 0 <= j < t.len() - 1 && t[j] == 46 && #[trigger] t[j + 1] == 46;
            assert(j < i);
        }
    }
    match text_of(target.as_slice()) {
        None => None,
        Some(text) => {
            proof {
                vstd::utf8::decode_utf8_encode_utf8(t);
            }
            let mut file = root.to_owned();
            file.append(text.as_str());
            Some((text, file))
        },
    }
}

/// The 404 page for a path that is refused before any read.
pub fn serve_refused_path() -> (r: Vec<u8>)
    ensures
        r@ == response_bytes(
            "404 Not Found"@,
            "text/html; charset=utf-8"@,
            crate::response::not_found_page("This path is not served."@),
        ),
{
    serve_404_html("This path is not served.")
}

/// The response for a request that is not authenticated.
pub fn serve_session_error(e: SessionError) -> (r: Vec<u8>)
    ensures
        r@ == error_response(HttpError::Forbidden, e.message_spec()),
{
    serve_error_json(HttpError::Forbidden, e.message())
}

/// A JSON array of the given items, in order.
pub open spec fn json_array_from(items: Seq<Seq<u8>>, i: int) -> Seq<u8>
    decreases items.len() - i,
{
    if i >= items.len() {
        seq![]
    } else {
        (if i == 0 {
            seq![]
        } else {
            ascii(","@)
        }) + items[i] + json_array_from(items, i + 1)
    }
}

pub open spec fn json_array(items: Seq<Seq<u8>>) -> Seq<u8> {
    ascii("["@) + json_array_from(items, 0) + ascii("]"@)
}

pub open spec fn tasks_json(tasks: Seq<TaskModel>) -> Seq<Seq<u8>> {
    tasks.map_values(|t: TaskModel| task_json(t))
}

pub open spec fn task_views(tasks: Seq<Task>) -> Seq<TaskModel> {
    tasks.map_values(|t: Task| t@)
}

pub open spec fn byte_views(items: Seq<Vec<u8>>) -> Seq<Seq<u8>> {
    items.map_values(|v: Vec<u8>| v@)
}

/// The JSON array of the given JSON values, in order.
pub fn join_json(items: &Vec<Vec<u8>>) -> (r: Vec<u8>)
    ensures
        r@ == json_array(byte_views(items@)),
{
    proof {
        reveal_strlit("[");
        reveal_strlit(",");
        reveal_strlit("]");
    }
    let ghost all = byte_views(items@);
    let mut body: Vec<u8> = Vec::new();
    body.extend_from_slice(literal("["));
    let ghost pre = body@;
    let mut i: usize = 0;
    while i < items.len()
        invariant
            i <= items@.len() == all.len(),
            all == byte_views(items@),
            pre + json_array_from(all, 0) == body@ + json_array_from(all, i as int),
        decreases items@.len() - i,
    {
        let ghost before = body@;
        proof {
            reveal_strlit(",");
        }
        if i > 0 {
            body.extend_from_slice(literal(","));
        }
        body.extend_from_slice(items[i].as_slice());
        proof {
            let sep: Seq<u8> = if i == 0 {
                seq![]
            } else {
                ascii(","@)
            };
            assert(body@ =~= before + sep + all[i as int]);
            assert(before + json_array_from(all, i as int) =~= body@ + json_array_from(all, i + 1));
        }
        i = i + 1;
    }
    assert(body@ + json_array_from(all, i as int) =~= body@);
    body.extend_from_slice(literal("]"));
    assert(body@ =~= json_array(all));
    body
}

/// `200 OK` with the JSON array of the tasks, in order.
pub fn serve_tasks(tasks: &Vec<Task>) -> (r: Vec<u8>)
    ensures
        r@ == response_bytes(
            "200 OK"@,
            "application/json"@,
            json_array(tasks_json(task_views(tasks@))),
        ),
{
    let mut items: Vec<Vec<u8>> = Vec::new();
    let mut i: usize = 0;
    while i < tasks.len()
        invariant
            i <= tasks@.len(),
            byte_views(items@) == tasks_json(task_views(tasks@.subrange(0, i as int))),
        decreases tasks@.len() - i,
    {
        let j = tasks[i].to_json();
        let ghost before = items@;
        items.push(j);
        proof {
            let prev = task_views(tasks@.subrange(0, i as int));
            assert(task_views(tasks@.subrange(0, i + 1)) =~= prev.push(tasks@[i as int]@));
            assert(tasks_json(prev.push(tasks@[i as int]@)) =~= tasks_json(prev).push(
                task_json(tasks@[i as int]@),
            ));
            assert(byte_views(items@) =~= byte_views(before).push(j@));
        }
        i = i + 1;
    }
    assert(tasks@.subrange(0, tasks@.len() as int) =~= tasks@);
    let body = join_json(&items);
    serve_200_json(body.as_slice())
}

/// `200 OK` with the JSON of a task.
pub fn serve_task(task: &Task) -> (r: Vec<u8>)
    ensures
        r@ == response_bytes("200 OK"@, "application/json"@, task_json(task@)),
{
    let j = task.to_json();
    serve_200_json(j.as_slice())
}

/// `200 OK` with the JSON of a user, which holds no password or salt.
pub fn serve_user(user: &User) -> (r: Vec<u8>)
    ensures
        r@ == response_bytes("200 OK"@, "application/json"@, user_json(user@)),
{
    let j = user.to_json();
    serve_200_json(j.as_slice())
}

/// The JSON that names the session's user.
pub open spec fn user_id_json(user_id: Seq<char>) -> Seq<u8> {
    encode_utf8("{"@) + text_member(true, "userId"@, user_id) + encode_utf8("}"@)
}

/// `200 OK` with the id of the session's user.
pub fn serve_user_id(user_id: &str) -> (r: Vec<u8>)
    ensures
        r@ == response_bytes("200 OK"@, "application/json"@, user_id_json(user_id@)),
{
    let mut body: Vec<u8> = Vec::new();
    push_text(&mut body, "{");
    push_text_member(&mut body, true, "userId", user_id);
    push_text(&mut body, "}");
    assert(body@ =~= user_id_json(user_id@));
    serve_200_json(body.as_slice())
}

/// The one message of a failed login, whichever way it failed.
pub const LOGIN_FAILURE: &'static str = "User not found or invalid password";

/// The JSON of a successful login: the user and the session token.
pub open spec fn login_json(username: Seq<char>, user_id: Seq<char>, token: u128) -> Seq<u8> {
    encode_utf8("{"@) + text_member(true, "username"@, username) + text_member(
        false,
        "userId"@,
        user_id,
    ) + text_member(false, "authority"@, token_text_of(token)) + encode_utf8("}"@)
}

/// The reply to a login with `password` against the users found under its
/// username, where `token` is the session issued on success.
pub open spec fn login_reply(users: Seq<UserModel>, password: Seq<char>, token: u128) -> Seq<u8> {
    if login_match(users, password) {
        response_bytes(
            "200 OK"@,
            "application/json"@,
            login_json(users[0].username, users[0].id, token),
        )
    } else {
        error_response(HttpError::BadRequest, LOGIN_FAILURE@)
    }
}

/// The sessions after a login with `password` against `users`, where a
/// success issues `token` at `now`.
pub open spec fn sessions_after_login(
    records: Map<u128, SessionUser>,
    ttl: u64,
    users: Seq<User>,
    password: Seq<char>,
    token: u128,
    now: i64,
) -> Map<u128, SessionUser> {
    if login_match(user_views(users), password) {
        records.insert(token, SessionUser { user_id: users[0].id, expire: expiry_of(now, ttl) })
    } else {
        records
    }
}

/// Logs in with `password` against the users found under its username,
/// issuing `token` at `now` on success. On failure no session changes, and
/// the reply does not tell an unknown user from a wrong password.
pub fn login_with(
    users: &Vec<User>,
    password: &str,
    sessions: &mut SessionStore,
    token: u128,
    now: i64,
) -> (r: Vec<u8>)
    ensures
        r@ == login_reply(user_views(users@), password@, token),
        final(sessions).records() == sessions_after_login(
            old(sessions).records(),
            old(sessions).ttl_spec(),
            users@,
            password@,
            token,
            now,
        ),
        final(sessions).ttl_spec() == old(sessions).ttl_spec(),
{
    if !check_login(users, password) {
        return serve_error_json(HttpError::BadRequest, LOGIN_FAILURE);
    }
    let user = &users[0];
    assert(user_views(users@)[0] == user@);
    sessions.issue(token, user.id.clone(), now);
    serve_login(user, token)
}

/// As `login_with`, under a fresh random token that no session holds yet,
/// at the current instant.
pub fn login(users: &Vec<User>, password: &str, sessions: &mut SessionStore) -> (r: Vec<u8>)
    ensures
        exists|token: u128, now: i64|
            #![trigger login_reply(user_views(users@), password@, token), sessions_after_login(old(sessions).records(), old(sessions).ttl_spec(), users@, password@, token, now)]
            !old(sessions).records().contains_key(token) && r@ == login_reply(
                user_views(users@),
                password@,
                token,
            ) && final(sessions).records()
                == sessions_after_login(
                old(sessions).records(),
                old(sessions).ttl_spec(),
                users@,
                password@,
                token,
                now,
            ),
        final(sessions).ttl_spec() == old(sessions).ttl_spec(),
{
    let token = sessions.unused_token(fresh_token());
    let now = now_millis();
    login_with(users, password, sessions, token, now)
}

/// `200 OK` with the JSON of a login of `user` under session `token`.
pub fn serve_login(user: &User, token: u128) -> (r: Vec<u8>)
    ensures
        r@ == response_bytes("200 OK"@, "application/json"@, login_json(user.username@, user.id@, token)),
{
    let text = token_text(token);
    let mut body: Vec<u8> = Vec::new();
    push_text(&mut body, "{");
    push_text_member(&mut body, true, "username", user.username.as_str());
    push_text_member(&mut body, false, "userId", user.id.as_str());
    push_text_member(&mut body, false, "authority", text.as_str());
    push_text(&mut body, "}");
    assert(body@ =~= login_json(user.username@, user.id@, token));
    serve_200_json(body.as_slice())
}

/// A login under an unknown username and one with a wrong password get the
/// very same reply, and neither issues a session.
pub proof fn lemma_login_failures_alike(
    user: UserModel,
    wrong: Seq<char>,
    password: Seq<char>,
    t1: u128,
    t2: u128,
)
    requires
        user.password != crate::auth::password_digest(wrong, user.salt),
    ensures
        !login_match(seq![], password),
        !login_match(seq![user], wrong),
        login_reply(seq![], password, t1) == login_reply(seq![user], wrong, t2),
        login_reply(seq![user], wrong, t2) == error_response(HttpError::BadRequest, LOGIN_FAILURE@),
{
}


/// A token issued by a successful login authenticates every request whose
/// `authority` header carries the token's text, as the user who logged in,
/// at every instant before the session's expiry; from that instant on it
/// is refused as expired, and the check evicts it.
pub proof fn lemma_login_token_lifetime(
    records: Map<u128, SessionUser>,
    ttl: u64,
    users: Seq<User>,
    password: Seq<char>,
    token: u128,
    now: i64,
    headers: Seq<Header>,
    at: i64,
)
    requires
        login_match(user_views(users), password),
        authority_of(headers) == Some(encode_utf8(token_text_of(token))),
        token_of_text(encode_utf8(token_text_of(token))) == Some(token),
    ensures
        ({
            let after = sessions_after_login(records, ttl, users, password, token, now);
            &&& at < expiry_of(now, ttl) ==> authenticated(after, headers, at) == Ok::<
                Seq<char>,
                SessionError,
            >(users[0].id@)
            &&& at >= expiry_of(now, ttl) ==> authenticated(after, headers, at) == Err::<
                Seq<char>,
                SessionError,
            >(SessionError::Expired(token))
            &&& at >= expiry_of(now, ttl) ==> !records_after(
                after,
                authenticated(after, headers, at),
            ).contains_key(token)
        }),
{
}


/// A task created for a session and stored is listed back to that
/// session exactly as it was created: the listing of the stored rows is
/// the JSON array of the created tasks, with the server's ids and owners
/// and the client's titles, descriptions and dates unchanged.
pub proof fn lemma_created_tasks_listed(ts: Seq<TaskModel>)
    requires
        forall|i: int| 0 <= i < ts.len() ==> task_dates_wf(#[trigger] ts[i]),
    ensures
        objects_of::<Task>(ts.map_values(|t: TaskModel| Task::to_cells(t))) == ts,
        json_array(tasks_json(objects_of::<Task>(ts.map_values(|t: TaskModel| Task::to_cells(t)))))
            == json_array(tasks_json(ts)),
{
    lemma_stored_tasks_list_back(ts);
}

} // verus!
